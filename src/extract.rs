use vstd::prelude::*;
use vstd::string::*;
use vstd::utf8::*;

verus! {

/// Unicode code points with the `White_Space` property.
pub open spec fn is_white_space(c: char) -> bool {
    let v = c as u32;
    (0x09 <= v && v <= 0x0D) || v == 0x20 || v == 0x85 || v == 0xA0 || v == 0x1680
        || (0x2000 <= v && v <= 0x200A) || v == 0x2028 || v == 0x2029 || v == 0x202F
        || v == 0x205F || v == 0x3000
}

/// Whether `c` is a Unicode white-space character.
pub fn is_white_space_char(c: char) -> (r: bool)
    ensures
        r == is_white_space(c),
{
    let v = c as u32;
    (0x09 <= v && v <= 0x0D) || v == 0x20 || v == 0x85 || v == 0xA0 || v == 0x1680
        || (0x2000 <= v && v <= 0x200A) || v == 0x2028 || v == 0x2029 || v == 0x202F
        || v == 0x205F || v == 0x3000
}


/// `s` without its trailing white space.
pub open spec fn trim_end(s: Seq<char>) -> Seq<char>
    decreases s.len(),
{
    if s.len() > 0 && is_white_space(s.last()) {
        trim_end(s.drop_last())
    } else {
        s
    }
}

/// The pieces of `s` that lie between line feeds, counted from the piece
/// that starts at `start`, where `s[start..i]` holds no line feed.
pub open spec fn split_from(s: Seq<char>, start: int, i: int) -> Seq<Seq<char>>
    decreases s.len() - i,
{
    if 0 <= i < s.len() {
        if s[i] == '\n' {
            seq![s.subrange(start, i)] + split_from(s, i + 1, i + 1)
        } else {
            split_from(s, start, i + 1)
        }
    } else {
        seq![s.subrange(start, s.len() as int)]
    }
}

/// The lines of `s`: the pieces between its line feeds.
pub open spec fn split_lines(s: Seq<char>) -> Seq<Seq<char>> {
    split_from(s, 0, 0)
}

/// Each line with its trailing white space removed.
pub open spec fn trim_each(lines: Seq<Seq<char>>) -> Seq<Seq<char>> {
    lines.map_values(|l: Seq<char>| trim_end(l))
}

/// At most the first `n` lines.
pub open spec fn keep_first(lines: Seq<Seq<char>>, n: int) -> Seq<Seq<char>> {
    if lines.len() <= n {
        lines
    } else {
        lines.take(n)
    }
}

/// The most lines a notification shows.
pub const MAX_DISPLAY_LINES: usize = 3;

/// The lines that a text is shown as: trailing white space is dropped, the
/// rest is split at line feeds, each line is right-trimmed, and lines after
/// the third are discarded. A text of white space alone shows no line.
pub open spec fn display_lines(text: Seq<char>) -> Seq<Seq<char>> {
    let t = trim_end(text);
    if t.len() == 0 {
        seq![]
    } else {
        keep_first(trim_each(split_lines(t)), MAX_DISPLAY_LINES as int)
    }
}

/// The character sequences that a vector of strings holds.
pub open spec fn string_views(v: Seq<String>) -> Seq<Seq<char>> {
    v.map_values(|s: String| s@)
}

/// The end of `text[from..to]` once its trailing white space is removed.
fn trimmed_end(text: &str, from: usize, to: usize) -> (e: usize)
    requires
        from <= to <= text@.len(),
    ensures
        from <= e <= to,
        text@.subrange(from as int, e as int) == trim_end(text@.subrange(from as int, to as int)),
{
    let mut e = to;
    while e > from && is_white_space_char(text.get_char(e - 1))
        invariant
            from <= e <= to,
            to <= text@.len(),
            trim_end(text@.subrange(from as int, e as int)) == trim_end(
                text@.subrange(from as int, to as int),
            ),
        decreases e,
    {
        assert(text@.subrange(from as int, e as int).drop_last() =~= text@.subrange(
            from as int,
            e - 1,
        ));
        e = e - 1;
    }
    e
}

proof fn lemma_trim_each_cons(first: Seq<char>, rest: Seq<Seq<char>>)
    ensures
        trim_each(seq![first] + rest) == seq![trim_end(first)] + trim_each(rest),
{
    assert(trim_each(seq![first] + rest) =~= seq![trim_end(first)] + trim_each(rest));
}

/// The lines that `text` is shown as.
pub fn display_lines_of(text: &str) -> (lines: Vec<String>)
    ensures
        string_views(lines@) == display_lines(text@),
{
    let len = text.unicode_len();
    let end = trimmed_end(text, 0, len);
    let mut lines: Vec<String> = Vec::new();
    assert(text@.subrange(0, len as int) =~= text@);
    if end == 0 {
        assert(string_views(lines@) =~= display_lines(text@));
        return lines;
    }
    let ghost t = text@.subrange(0, end as int);
    let ghost all = trim_each(split_lines(t));
    let mut start: usize = 0;
    let mut i: usize = 0;
    assert(string_views(lines@) + trim_each(split_from(t, 0, 0)) =~= all);
    while i < end && lines.len() < MAX_DISPLAY_LINES
        invariant
            start <= i <= end,
            end <= text@.len(),
            t == text@.subrange(0, end as int),
            all == trim_each(split_lines(t)),
            lines.len() <= MAX_DISPLAY_LINES,
            string_views(lines@) + trim_each(split_from(t, start as int, i as int)) == all,
        decreases end - i,
    {
        let c = text.get_char(i);
        assert(t[i as int] == c);
        if c == '\n' {
            let e = trimmed_end(text, start, i);
            assert(t.subrange(start as int, i as int) =~= text@.subrange(start as int, i as int));
            let piece = text.substring_char(start, e).to_owned();
            let ghost before = string_views(lines@);
            proof {
                lemma_trim_each_cons(
                    t.subrange(start as int, i as int),
                    split_from(t, i + 1, i + 1),
                );
            }
            lines.push(piece);
            assert(string_views(lines@) =~= before.push(piece@));
            assert(string_views(lines@) + trim_each(split_from(t, i + 1, i + 1)) =~= before + (
            seq![trim_end(t.subrange(start as int, i as int))] + trim_each(
                split_from(t, i + 1, i + 1),
            )));
            start = i + 1;
        }
        i = i + 1;
    }
    if lines.len() < MAX_DISPLAY_LINES {
        let e = trimmed_end(text, start, end);
        assert(t.subrange(start as int, end as int) =~= text@.subrange(
            start as int,
            end as int,
        ));
        let piece = text.substring_char(start, e).to_owned();
        let ghost before = string_views(lines@);
        lines.push(piece);
        assert(string_views(lines@) =~= before.push(piece@));
        assert(trim_each(split_from(t, start as int, i as int)) =~= seq![
            trim_end(t.subrange(start as int, end as int)),
        ]);
        assert(string_views(lines@) =~= all);
    } else {
        assert(string_views(lines@) =~= all.take(MAX_DISPLAY_LINES as int));
    }
    lines
}


/// `b` without its trailing NUL bytes.
pub open spec fn strip_trailing_nul(b: Seq<u8>) -> Seq<u8>
    decreases b.len(),
{
    if b.len() > 0 && b.last() == 0 {
        strip_trailing_nul(b.drop_last())
    } else {
        b
    }
}

/// Why a received buffer gives no notification.
#[derive(Debug, Clone, Copy, PartialEq, Eq, Structural)]
pub enum ExtractError {
    /// The bytes before the NUL padding are not valid UTF-8.
    InvalidUtf8,
}

/// What a received buffer is shown as: the lines of the text that its bytes
/// encode once the NUL padding is stripped, or the reason it shows nothing.
pub open spec fn extract_spec(b: Seq<u8>) -> Result<Seq<Seq<char>>, ExtractError> {
    let payload = strip_trailing_nul(b);
    if valid_utf8(payload) {
        Ok(display_lines(decode_utf8(payload)))
    } else {
        Err(ExtractError::InvalidUtf8)
    }
}

/// The length of `b` without its trailing NUL bytes.
fn payload_len(b: &[u8]) -> (n: usize)
    ensures
        n <= b@.len(),
        b@.subrange(0, n as int) == strip_trailing_nul(b@),
{
    let mut n = b.len();
    assert(b@.subrange(0, n as int) =~= b@);
    while n > 0 && b[n - 1] == 0
        invariant
            n <= b@.len(),
            strip_trailing_nul(b@.subrange(0, n as int)) == strip_trailing_nul(b@),
        decreases n,
    {
        assert(b@.subrange(0, n as int).drop_last() =~= b@.subrange(0, n - 1));
        n = n - 1;
    }
    n
}

/// Relies on `std::str::from_utf8`: it accepts exactly the byte sequences
/// that are valid UTF-8, and the text it gives holds the characters they
/// encode.
#[verifier::external_body]
fn decode_text(b: &[u8]) -> (r: Option<String>)
    ensures
        r is Some <==> valid_utf8(b@),
        r matches Some(s) ==> s@ == decode_utf8(b@),
{
    match std::str::from_utf8(b) {
        Ok(s) => Some(s.to_owned()),
        Err(_) => None,
    }
}

/// Turns a received buffer into the lines of a notification: the trailing NUL
/// padding is stripped, the rest is read as UTF-8 and shown as
/// `display_lines` says. Fails only where that text is not valid UTF-8.
pub fn extract(buffer: &[u8]) -> (r: Result<Vec<String>, ExtractError>)
    ensures
        match r {
            Ok(lines) => extract_spec(buffer@) == Ok::<Seq<Seq<char>>, ExtractError>(
                string_views(lines@),
            ),
            Err(e) => extract_spec(buffer@) == Err::<Seq<Seq<char>>, ExtractError>(e),
        },
{
    let n = payload_len(buffer);
    let payload = &buffer[0..n];
    assert(payload@ == strip_trailing_nul(buffer@));
    match decode_text(payload) {
        Some(text) => Ok(display_lines_of(text.as_str())),
        None => Err(ExtractError::InvalidUtf8),
    }
}


/// The number of line feeds in `s`.
pub open spec fn count_line_feeds(s: Seq<char>) -> nat
    decreases s.len(),
{
    if s.len() == 0 {
        0
    } else {
        (if s[0] == '\n' {
            1nat
        } else {
            0nat
        }) + count_line_feeds(s.drop_first())
    }
}

/// `n` NUL bytes.
pub open spec fn nul_padding(n: nat) -> Seq<u8> {
    Seq::new(n, |i: int| 0u8)
}

proof fn lemma_split_from_len(s: Seq<char>, start: int, i: int)
    requires
        0 <= i <= s.len(),
    ensures
        split_from(s, start, i).len() == 1 + count_line_feeds(s.subrange(i, s.len() as int)),
    decreases s.len() - i,
{
    let rest = s.subrange(i, s.len() as int);
    if i < s.len() {
        assert(rest.drop_first() =~= s.subrange(i + 1, s.len() as int));
        if s[i] == '\n' {
            lemma_split_from_len(s, i + 1, i + 1);
        } else {
            lemma_split_from_len(s, start, i + 1);
        }
    } else {
        assert(rest.len() == 0);
    }
}

proof fn lemma_split_from_no_nul(s: Seq<char>, start: int, i: int)
    requires
        0 <= start <= i <= s.len(),
        forall|k: int| 0 <= k < s.len() ==> s[k] != '\0',
    ensures
        forall|j: int, k: int|
            0 <= j < split_from(s, start, i).len() && 0 <= k < split_from(s, start, i)[j].len()
                ==> split_from(s, start, i)[j][k] != '\0',
    decreases s.len() - i,
{
    let r = split_from(s, start, i);
    if i < s.len() {
        if s[i] == '\n' {
            lemma_split_from_no_nul(s, i + 1, i + 1);
            let first = s.subrange(start, i);
            let rest = split_from(s, i + 1, i + 1);
            assert(r == seq![first] + rest);
            assert forall|j: int, k: int| 0 <= j < r.len() && 0 <= k < r[j].len() implies r[j][k]
                != '\0' by {
                if j == 0 {
                    assert(r[j][k] == s[start + k]);
                } else {
                    assert(r[j] == rest[j - 1]);
                }
            }
        } else {
            lemma_split_from_no_nul(s, start, i + 1);
            assert(r == split_from(s, start, i + 1));
        }
    } else {
        assert forall|j: int, k: int| 0 <= j < r.len() && 0 <= k < r[j].len() implies r[j][k]
            != '\0' by {
            assert(r[j][k] == s[start + k]);
        }
    }
}

proof fn lemma_trim_end_prefix(s: Seq<char>)
    ensures
        trim_end(s).len() <= s.len(),
        forall|k: int| 0 <= k < trim_end(s).len() ==> trim_end(s)[k] == s[k],
        trim_end(s).len() == 0 || !is_white_space(trim_end(s).last()),
    decreases s.len(),
{
    if s.len() > 0 && is_white_space(s.last()) {
        lemma_trim_end_prefix(s.drop_last());
        assert(trim_end(s) == trim_end(s.drop_last()));
        assert forall|k: int| 0 <= k < trim_end(s).len() implies trim_end(s)[k] == s[k] by {
            assert(s.drop_last()[k] == s[k]);
        }
    }
}

proof fn lemma_trim_end_idempotent(s: Seq<char>)
    ensures
        trim_end(trim_end(s)) == trim_end(s),
{
    lemma_trim_end_prefix(s);
}

proof fn lemma_strip_padding(x: Seq<u8>, n: nat)
    ensures
        strip_trailing_nul(x + nul_padding(n)) == strip_trailing_nul(x),
    decreases n,
{
    if n == 0 {
        assert(x + nul_padding(n) =~= x);
    } else {
        assert((x + nul_padding(n)).drop_last() =~= x + nul_padding((n - 1) as nat));
        lemma_strip_padding(x, (n - 1) as nat);
    }
}

proof fn lemma_encode_concat(a: Seq<char>, b: Seq<char>)
    ensures
        encode_utf8(a + b) == encode_utf8(a) + encode_utf8(b),
    decreases a.len(),
{
    if a.len() > 0 {
        assert((a + b).drop_first() =~= a.drop_first() + b);
        lemma_encode_concat(a.drop_first(), b);
        assert(encode_utf8(a + b) =~= encode_utf8(a) + encode_utf8(b));
    } else {
        assert(a + b =~= b);
        assert(encode_utf8(a) + encode_utf8(b) =~= encode_utf8(b));
    }
}

proof fn lemma_encode_last_byte(t: Seq<char>)
    requires
        t.len() > 0,
        t.last() != '\0',
    ensures
        encode_utf8(t).len() > 0,
        encode_utf8(t).last() != 0,
{
    let c = t.last();
    let v = c as u32;
    assert(t =~= t.drop_last() + seq![c]);
    lemma_encode_concat(t.drop_last(), seq![c]);
    assert(seq![c].drop_first() =~= Seq::<char>::empty());
    assert(seq![c][0] == c);
    assert(encode_utf8(Seq::<char>::empty()) =~= Seq::<u8>::empty());
    assert(encode_utf8(seq![c]) == encode_scalar(v) + encode_utf8(Seq::<char>::empty()));
    assert(encode_utf8(seq![c]) =~= encode_scalar(v));
    if v == 0 {
        char_u32_cast(c, v);
        assert((0u32 as char) == '\0');
    }
    if has_width_1_encoding(v) {
        assert((v & 0x7F) as u8 != 0) by (bit_vector)
            requires
                v <= 0x7F,
                v != 0,
        ;
    } else {
        assert(0x80 | (v & 0x3F) as u8 != 0) by (bit_vector);
    }
}

/// A buffer that holds a text followed by NUL padding, where the text has no
/// NUL character and does not end in white space, is shown as one line more
/// than the text has line feeds, but at most three lines; each line is
/// right-trimmed and holds no NUL character.
pub proof fn lemma_extract_line_count(text: Seq<char>, padding: nat)
    requires
        text.len() > 0,
        forall|k: int| 0 <= k < text.len() ==> text[k] != '\0',
        !is_white_space(text.last()),
    ensures
        extract_spec(encode_utf8(text) + nul_padding(padding)) is Ok,
        ({
            let lines = extract_spec(encode_utf8(text) + nul_padding(padding))->Ok_0;
            &&& lines.len() == if count_line_feeds(text) + 1 <= MAX_DISPLAY_LINES {
                count_line_feeds(text) + 1
            } else {
                MAX_DISPLAY_LINES as nat
            }
            &&& forall|j: int| 0 <= j < lines.len() ==> trim_end(#[trigger] lines[j]) == lines[j]
            &&& forall|j: int, k: int|
                0 <= j < lines.len() && 0 <= k < lines[j].len() ==> lines[j][k] != '\0'
        }),
{
    broadcast use encode_utf8_valid_utf8, encode_utf8_decode_utf8;

    let b = encode_utf8(text) + nul_padding(padding);
    lemma_strip_padding(encode_utf8(text), padding);
    lemma_encode_last_byte(text);
    assert(strip_trailing_nul(b) == encode_utf8(text));
    assert(decode_utf8(strip_trailing_nul(b)) == text);
    assert(trim_end(text) == text);
    lemma_split_from_len(text, 0, 0);
    assert(text.subrange(0, text.len() as int) =~= text);
    lemma_split_from_no_nul(text, 0, 0);
    let all = trim_each(split_lines(text));
    let lines = keep_first(all, MAX_DISPLAY_LINES as int);
    assert(lines == extract_spec(b)->Ok_0);
    assert forall|j: int| 0 <= j < lines.len() implies trim_end(#[trigger] lines[j]) == lines[j] by {
        lemma_trim_end_idempotent(split_lines(text)[j]);
    }
    assert forall|j: int, k: int| 0 <= j < lines.len() && 0 <= k < lines[j].len() implies lines[j][k]
        != '\0' by {
        let piece = split_lines(text)[j];
        lemma_trim_end_prefix(piece);
        assert(lines[j] == trim_end(piece));
        assert(lines[j][k] == piece[k]);
    }
}

proof fn lemma_strip_all_nul(n: nat)
    ensures
        strip_trailing_nul(nul_padding(n)) == Seq::<u8>::empty(),
    decreases n,
{
    if n > 0 {
        assert(nul_padding(n).drop_last() =~= nul_padding((n - 1) as nat));
        lemma_strip_all_nul((n - 1) as nat);
    } else {
        assert(nul_padding(n) =~= Seq::<u8>::empty());
    }
}

/// A buffer of NUL bytes alone is shown as no line at all.
pub proof fn lemma_extract_nul_only(n: nat)
    ensures
        extract_spec(nul_padding(n)) == Ok::<Seq<Seq<char>>, ExtractError>(Seq::empty()),
{
    lemma_strip_all_nul(n);
    let e = Seq::<u8>::empty();
    assert(valid_utf8(e));
    assert(decode_utf8(e) =~= Seq::<char>::empty());
    assert(display_lines(Seq::<char>::empty()) =~= Seq::<Seq<char>>::empty());
}

} // verus!
