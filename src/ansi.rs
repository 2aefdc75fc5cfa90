use vstd::prelude::*;

verus! {

/// A value that has a textual form as ANSI escape sequences.
pub trait ToAnsi {
    /// The characters of the escape sequences.
    spec fn ansi(&self) -> Seq<char>;

    fn to_ansi(&self) -> (r: String)
        ensures
            r@ == self.ansi(),
    ;
}

/// The escape byte that starts every sequence.
pub const ESC: u8 = 0x1b;

/// The decimal digits of `n`, most significant first, without leading zeros.
pub open spec fn decimal(n: nat) -> Seq<u8>
    decreases n,
{
    if n < 10 {
        seq![(0x30 + n) as u8]
    } else {
        decimal(n / 10) + seq![(0x30 + n % 10) as u8]
    }
}

/// The numbers of `params` in decimal, separated by `;`.
pub open spec fn joined(params: Seq<nat>) -> Seq<u8>
    decreases params.len(),
{
    if params.len() == 0 {
        Seq::empty()
    } else if params.len() == 1 {
        decimal(params[0])
    } else {
        joined(params.drop_last()) + seq![0x3b] + decimal(params.last())
    }
}

/// A control sequence: ESC `[`, then `prefix`, the parameters, and the final byte `fin`.
pub open spec fn csi(prefix: Seq<u8>, params: Seq<nat>, fin: u8) -> Seq<u8> {
    seq![ESC, 0x5b] + prefix + joined(params) + seq![fin]
}

/// Each byte of `s` as the character with that code.
pub open spec fn ascii_chars(s: Seq<u8>) -> Seq<char> {
    s.map_values(|b: u8| b as char)
}

/// Every byte of `s` is an ASCII code.
pub open spec fn is_ascii(s: Seq<u8>) -> bool {
    forall|k: int| 0 <= k < s.len() ==> #[trigger] s[k] < 0x80
}

proof fn lemma_decimal_ascii(n: nat)
    ensures
        is_ascii(decimal(n)),
    decreases n,
{
    if n >= 10 {
        lemma_decimal_ascii(n / 10);
    }
}

proof fn lemma_joined_ascii(params: Seq<nat>)
    ensures
        is_ascii(joined(params)),
    decreases params.len(),
{
    if params.len() == 1 {
        lemma_decimal_ascii(params[0]);
    } else if params.len() > 1 {
        lemma_joined_ascii(params.drop_last());
        lemma_decimal_ascii(params.last());
    }
}

/// A control sequence is ASCII where its prefix and final byte are.
pub proof fn lemma_csi_ascii(prefix: Seq<u8>, params: Seq<nat>, fin: u8)
    requires
        is_ascii(prefix),
        fin < 0x80,
    ensures
        is_ascii(csi(prefix, params, fin)),
{
    lemma_joined_ascii(params);
}

/// Two ASCII sequences joined are ASCII.
pub proof fn lemma_concat_ascii(a: Seq<u8>, b: Seq<u8>)
    requires
        is_ascii(a),
        is_ascii(b),
    ensures
        is_ascii(a + b),
{
    assert forall|k: int| 0 <= k < (a + b).len() implies #[trigger] (a + b)[k] < 0x80 by {
        if k < a.len() {
            assert((a + b)[k] == a[k]);
        } else {
            assert((a + b)[k] == b[k - a.len()]);
        }
    }
}

/// Appends the decimal digits of `n` to `out`.
pub fn push_decimal(out: &mut Vec<u8>, n: u32)
    ensures
        final(out)@ == old(out)@ + decimal(n as nat),
    decreases n,
{
    if n >= 10 {
        push_decimal(out, n / 10);
    }
    out.push(0x30 + (n % 10) as u8);
}

/// Appends a control sequence to `out`: ESC `[`, `prefix`, the parameters separated by `;`,
/// then `fin`.
pub fn push_csi(out: &mut Vec<u8>, prefix: &[u8], params: &[u32], fin: u8)
    ensures
        final(out)@ == old(out)@ + csi(prefix@, params@.map_values(|p: u32| p as nat), fin),
{
    let ghost nats = params@.map_values(|p: u32| p as nat);
    out.push(ESC);
    out.push(0x5b);
    let mut k: usize = 0;
    while k < prefix.len()
        invariant
            k <= prefix@.len(),
            out@ == old(out)@ + seq![ESC, 0x5b] + prefix@.take(k as int),
        decreases prefix@.len() - k,
    {
        out.push(prefix[k]);
        k = k + 1;
        assert(prefix@.take(k as int) == prefix@.take(k - 1) + seq![prefix@[k - 1]]);
    }
    assert(prefix@.take(prefix@.len() as int) == prefix@);
    let ghost start = out@;
    let mut j: usize = 0;
    while j < params.len()
        invariant
            j <= params@.len(),
            nats == params@.map_values(|p: u32| p as nat),
            out@ == start + joined(nats.take(j as int)),
        decreases params@.len() - j,
    {
        let ghost sofar = nats.take(j as int);
        if j > 0 {
            out.push(0x3b);
        }
        push_decimal(out, params[j]);
        j = j + 1;
        assert(nats.take(j as int).drop_last() == sofar);
        if j == 1 {
            assert(sofar.len() == 0);
        }
    }
    assert(nats.take(params@.len() as int) == nats);
    out.push(fin);
}

/// Relies on `String::from_utf8`: bytes that are all ASCII are valid UTF-8, and they decode to
/// the characters with the same codes, one for each byte.
#[verifier::external_body]
pub(crate) fn ascii_string(bytes: Vec<u8>) -> (r: String)
    requires
        is_ascii(bytes@),
    ensures
        r@ == ascii_chars(bytes@),
{
    match String::from_utf8(bytes) {
        Ok(s) => s,
        Err(_) => String::new(),
    }
}

/// What is left of `text` once every match of the regular expression `pattern` is removed.
pub uninterp spec fn without_matches(pattern: Seq<char>, text: Seq<char>) -> Seq<char>;

/// Whether `pattern` is a regular expression that the regex engine accepts.
pub uninterp spec fn regex_compiles(pattern: Seq<char>) -> bool;

/// Relies on `regex::Regex::new`, which accepts or refuses a pattern by its text alone, and on
/// `regex::Regex::replace_all` with an empty replacement, which removes every match.
#[verifier::external_body]
fn remove_matches(pattern: &str, text: &str) -> (r: Option<String>)
    ensures
        r is Some <==> regex_compiles(pattern@),
        r is Some ==> r->Some_0@ == without_matches(pattern@, text@),
{
    match regex::Regex::new(pattern) {
        Ok(re) => Some(re.replace_all(text, "").to_string()),
        Err(_) => None,
    }
}

/// The escape sequences that `strip` takes out.
pub const ESCAPE_CODES: &'static str =
    r"[\u001b\u009b][\[()#;?]*(?:[0-9]{1,4}(?:;[0-9]{0,4})*)?[0-9A-ORZcf-nqry=><]";

/// `text` without its ANSI escape sequences.
pub open spec fn stripped(text: Seq<char>) -> Seq<char> {
    if regex_compiles(ESCAPE_CODES@) {
        without_matches(ESCAPE_CODES@, text)
    } else {
        text
    }
}

/// Returns a duplicate string with all ANSI escape codes stripped.
pub fn strip(text: &str) -> (r: String)
    ensures
        r@ == stripped(text@),
{
    match remove_matches(ESCAPE_CODES, text) {
        Some(s) => s,
        None => text.to_owned(),
    }
}

/// Relies on `String + &str` (`Add<&str> for String`): the characters of `a`, then those of `b`.
#[verifier::external_body]
pub(crate) fn concat(a: String, b: &str) -> (r: String)
    ensures
        r@ == a@ + b@,
{
    a + b
}

} // verus!
