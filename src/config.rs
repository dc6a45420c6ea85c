use vstd::prelude::*;
use vstd::string::*;

verus! {

/// The port listened on when none is configured.
pub const DEFAULT_PORT: u16 = 45654;

/// The environment variable that may name the port.
pub const PORT_VARIABLE: &'static str = "MY_NOTIF_PORT";

/// Whether `c` is an ASCII decimal digit.
pub open spec fn is_digit(c: char) -> bool {
    48 <= c as u32 && c as u32 <= 57
}

/// The number that the decimal digits `s` write.
pub open spec fn digits_value(s: Seq<char>) -> int
    decreases s.len(),
{
    if s.len() == 0 {
        0
    } else {
        digits_value(s.drop_last()) * 10 + (s.last() as u32 - 48)
    }
}

/// `s` without one leading plus sign.
pub open spec fn unsigned_digits(s: Seq<char>) -> Seq<char> {
    if s.len() > 0 && s[0] == '+' {
        s.drop_first()
    } else {
        s
    }
}

/// The port that `s` writes: an optional plus sign, then one or more decimal
/// digits whose value fits in 16 bits.
pub open spec fn parse_port_spec(s: Seq<char>) -> Option<u16> {
    let d = unsigned_digits(s);
    if d.len() > 0 && (forall|k: int| 0 <= k < d.len() ==> is_digit(#[trigger] d[k]))
        && digits_value(d) <= u16::MAX {
        Some(digits_value(d) as u16)
    } else {
        None
    }
}

proof fn lemma_digits_value_prefix(s: Seq<char>, m: int)
    requires
        0 <= m <= s.len(),
        forall|k: int| 0 <= k < s.len() ==> is_digit(#[trigger] s[k]),
    ensures
        0 <= digits_value(s.take(m)) <= digits_value(s),
    decreases s.len(),
{
    if m == s.len() {
        assert(s.take(m) =~= s);
        if s.len() > 0 {
            lemma_digits_value_prefix(s.drop_last(), 0);
            assert(is_digit(s[s.len() - 1]));
        } else {
        }
    } else {
        let p = s.drop_last();
        assert(s.take(m) =~= p.take(m));
        lemma_digits_value_prefix(p, m);
        lemma_digits_value_prefix(p, p.len() as int);
        assert(p.take(p.len() as int) =~= p);
        assert(is_digit(s[s.len() - 1]));
    }
}

/// Reads a port number: an optional plus sign, then decimal digits whose
/// value fits in 16 bits.
pub fn parse_port(s: &str) -> (r: Option<u16>)
    ensures
        r == parse_port_spec(s@),
{
    let n = s.unicode_len();
    let start: usize = if n > 0 && s.get_char(0) == '+' {
        1
    } else {
        0
    };
    let ghost d = unsigned_digits(s@);
    assert(d =~= s@.subrange(start as int, n as int));
    if start == n {
        return None;
    }
    let mut value: u32 = 0;
    let mut i: usize = start;
    while i < n
        invariant
            start <= i <= n,
            n == s@.len(),
            d == s@.subrange(start as int, n as int),
            d == unsigned_digits(s@),
            forall|k: int| 0 <= k < i - start ==> is_digit(#[trigger] d[k]),
            value as int == digits_value(d.take(i - start)),
            value <= u16::MAX,
        decreases n - i,
    {
        let c = s.get_char(i);
        let v = c as u32;
        assert(d[i - start] == c);
        if !(48 <= v && v <= 57) {
            assert(!is_digit(d[i - start]));
            return None;
        }
        let ghost m = i - start;
        assert(d.take(m + 1).drop_last() =~= d.take(m));
        assert(d.take(m + 1).last() == c);
        assert(digits_value(d.take(m + 1)) == digits_value(d.take(m)) * 10 + (v - 48));
        value = value * 10 + (v - 48);
        if value > 65535 {
            proof {
                if forall|k: int| 0 <= k < d.len() ==> is_digit(#[trigger] d[k]) {
                    lemma_digits_value_prefix(d, m + 1);
                }
            }
            return None;
        }
        i = i + 1;
    }
    assert(d.take(d.len() as int) =~= d);
    Some(value as u16)
}

/// Why no port could be chosen.
#[derive(Debug, Clone, PartialEq, Eq)]
pub enum PortError {
    /// The configured text is no port number.
    Invalid(String),
}

/// Chooses the port to listen on: the one the first command-line argument
/// names, or else the one the environment variable names, or else the
/// default. A configured text that is no port number is an error.
pub fn choose_port(arg: Option<String>, env: Option<String>) -> (r: Result<u16, PortError>)
    ensures
        ({
            let configured = if arg is Some {
                arg
            } else {
                env
            };
            match configured {
                None => r == Ok::<u16, PortError>(DEFAULT_PORT),
                Some(text) => match parse_port_spec(text@) {
                    Some(p) => r == Ok::<u16, PortError>(p),
                    None => r matches Err(PortError::Invalid(bad)) && bad@ == text@,
                },
            }
        }),
{
    let configured = match arg {
        Some(a) => Some(a),
        None => env,
    };
    match configured {
        None => Ok(DEFAULT_PORT),
        Some(text) => match parse_port(text.as_str()) {
            Some(p) => Ok(p),
            None => Err(PortError::Invalid(text)),
        },
    }
}

} // verus!
