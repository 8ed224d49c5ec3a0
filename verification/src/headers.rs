use vstd::prelude::*;
use vstd::utf8::*;

verus! {

/// A byte that may appear in text read from a header value: a visible ASCII
/// character, a space, or a horizontal tab.
pub open spec fn is_visible_ascii(b: u8) -> bool {
    (32 <= b && b < 127) || b == 9
}

/// A byte that a header value may hold at all: anything but a control
/// character or DEL, with the horizontal tab allowed.
pub open spec fn is_valid_header_byte(b: u8) -> bool {
    (32 <= b && b != 127) || b == 9
}

/// Header bytes that read as text.
pub open spec fn is_visible_text(bytes: Seq<u8>) -> bool {
    forall|i: int| 0 <= i < bytes.len() ==> is_visible_ascii(#[trigger] bytes[i])
}

/// Bytes that a header value may hold.
pub open spec fn is_valid_header_value(bytes: Seq<u8>) -> bool {
    forall|i: int| 0 <= i < bytes.len() ==> is_valid_header_byte(#[trigger] bytes[i])
}

/// The scheme word that precedes a token in an Authorization header,
/// with its trailing space: `Bearer `.
pub open spec fn bearer_prefix() -> Seq<u8> {
    seq![66u8, 101u8, 97u8, 114u8, 101u8, 114u8, 32u8]
}

/// `s` with every occurrence of `pattern` removed, occurrences being found
/// left to right without overlapping.
pub open spec fn remove_all(s: Seq<u8>, pattern: Seq<u8>) -> Seq<u8>
    decreases s.len(),
{
    if pattern.len() == 0 || s.len() < pattern.len() {
        s
    } else if s.subrange(0, pattern.len() as int) == pattern {
        remove_all(s.skip(pattern.len() as int), pattern)
    } else {
        seq![s[0]] + remove_all(s.skip(1), pattern)
    }
}

/// Whether `bytes` is text that an HTTP header may carry.
pub fn is_header_text(bytes: &[u8]) -> (ok: bool)
    ensures
        ok == is_visible_text(bytes@),
        ok == forall|i: int|
            0 <= i < bytes@.len() ==> (32 <= #[trigger] bytes@[i] < 127 || bytes@[i] == 9),
{
    let mut i: usize = 0;
    while i < bytes.len()
        invariant
            i <= bytes@.len(),
            forall|k: int| 0 <= k < i ==> is_visible_ascii(#[trigger] bytes@[k]),
        decreases bytes@.len() - i,
    {
        let b = bytes[i];
        if !((32 <= b && b < 127) || b == 9) {
            return false;
        }
        i = i + 1;
    }
    true
}

/// Whether `bytes` holds the bearer prefix at `at`.
fn bearer_at(bytes: &[u8], at: usize) -> (found: bool)
    requires
        at <= bytes@.len(),
    ensures
        found == (at + 7 <= bytes@.len() && bytes@.subrange(at as int, at + 7) == bearer_prefix()),
{
    if bytes.len() - at < 7 {
        return false;
    }
    let found = bytes[at] == 66 && bytes[at + 1] == 101 && bytes[at + 2] == 97 && bytes[at + 3]
        == 114 && bytes[at + 4] == 101 && bytes[at + 5] == 114 && bytes[at + 6] == 32;
    assert(found == (bytes@.subrange(at as int, at + 7) =~= bearer_prefix()));
    found
}

/// One step of `remove_all` on the suffix of `s` from `i`.
proof fn lemma_remove_all_step(s: Seq<u8>, i: int)
    requires
        0 <= i < s.len(),
    ensures
        (i + 7 <= s.len() && s.subrange(i, i + 7) == bearer_prefix()) ==> remove_all(
            s.skip(i),
            bearer_prefix(),
        ) == remove_all(s.skip(i + 7), bearer_prefix()),
        !(i + 7 <= s.len() && s.subrange(i, i + 7) == bearer_prefix()) ==> remove_all(
            s.skip(i),
            bearer_prefix(),
        ) == seq![s[i]] + remove_all(s.skip(i + 1), bearer_prefix()),
{
    let t = s.skip(i);
    assert(t.skip(1) =~= s.skip(i + 1));
    if i + 7 <= s.len() {
        assert(t.subrange(0, 7) =~= s.subrange(i, i + 7));
        assert(t.skip(7) =~= s.skip(i + 7));
    }
}

/// The text of an Authorization header with every `Bearer ` removed: the
/// token that the header presents.
pub fn strip_bearer(text: &[u8]) -> (token: Vec<u8>)
    ensures
        token@ == remove_all(text@, bearer_prefix()),
{
    let mut out: Vec<u8> = Vec::new();
    let mut i: usize = 0;
    assert(text@.skip(0) =~= text@);
    assert(out@ + remove_all(text@, bearer_prefix()) =~= remove_all(text@, bearer_prefix()));
    while i < text.len()
        invariant
            i <= text@.len(),
            out@ + remove_all(text@.skip(i as int), bearer_prefix()) == remove_all(
                text@,
                bearer_prefix(),
            ),
        decreases text@.len() - i,
    {
        proof {
            lemma_remove_all_step(text@, i as int);
        }
        if bearer_at(text, i) {
            i = i + 7;
        } else {
            let ghost before = out@;
            out.push(text[i]);
            assert(out@ + remove_all(text@.skip(i + 1), bearer_prefix()) =~= before + (seq![
                text@[i as int],
            ] + remove_all(text@.skip(i + 1), bearer_prefix())));
            i = i + 1;
        }
    }
    assert(text@.skip(i as int) =~= Seq::<u8>::empty());
    assert(out@ + Seq::<u8>::empty() =~= out@);
    out
}

/// Bytes without a space hold no `Bearer ` to remove.
pub proof fn lemma_remove_all_without_space(s: Seq<u8>)
    requires
        forall|i: int| 0 <= i < s.len() ==> #[trigger] s[i] != 32u8,
    ensures
        remove_all(s, bearer_prefix()) == s,
    decreases s.len(),
{
    if s.len() >= 7 {
        assert(s.subrange(0, 7)[6] != bearer_prefix()[6]);
        lemma_remove_all_without_space(s.skip(1));
        assert(seq![s[0]] + s.skip(1) =~= s);
    }
}

/// A `Bearer ` in front of bytes is removed, and what follows is handled alone.
pub proof fn lemma_remove_all_after_prefix(s: Seq<u8>)
    ensures
        remove_all(bearer_prefix() + s, bearer_prefix()) == remove_all(s, bearer_prefix()),
{
    let t = bearer_prefix() + s;
    assert(t.subrange(0, 7) =~= bearer_prefix());
    assert(t.skip(7) =~= s);
}

/// The UTF-8 bytes of ASCII text are its characters one for one.
pub proof fn lemma_ascii_bytes(chars: Seq<char>)
    requires
        is_ascii_chars(chars),
    ensures
        encode_utf8(chars).len() == chars.len(),
        forall|i: int| 0 <= i < chars.len() ==> #[trigger] encode_utf8(chars)[i] == chars[i] as u8,
{
    is_ascii_chars_encode_utf8(chars);
}

/// Law: header text is exactly a byte string each of whose bytes is a
/// visible ASCII character (32 to 126) or a tab, of any length.
pub proof fn lemma_visible_text_bytewise(bytes: Seq<u8>)
    ensures
        is_visible_text(bytes) <==> forall|i: int|
            0 <= i < bytes.len() ==> (32 <= #[trigger] bytes[i] < 127 || bytes[i] == 9),
{
}

/// Law: two byte strings joined are header text exactly when each of them is.
pub proof fn lemma_visible_text_concat(a: Seq<u8>, b: Seq<u8>)
    ensures
        is_visible_text(a + b) <==> is_visible_text(a) && is_visible_text(b),
{
    if is_visible_text(a) && is_visible_text(b) {
        assert forall|i: int| 0 <= i < (a + b).len() implies is_visible_ascii(#[trigger] (a + b)[i]) by {
            if i < a.len() {
                assert((a + b)[i] == a[i]);
            } else {
                assert((a + b)[i] == b[i - a.len()]);
            }
        }
    }
    if is_visible_text(a + b) {
        assert forall|i: int| 0 <= i < a.len() implies is_visible_ascii(#[trigger] a[i]) by {
            assert((a + b)[i] == a[i]);
        }
        assert forall|i: int| 0 <= i < b.len() implies is_visible_ascii(#[trigger] b[i]) by {
            assert((a + b)[i + a.len()] == b[i]);
        }
    }
}

/// Law: `remove_all` of the `Bearer ` word is the replacement that scans
/// left to right: nothing stays nothing, a leading `Bearer ` is dropped and
/// the scan goes on after it, and any other first byte is kept.
pub proof fn lemma_remove_all_scan(s: Seq<u8>)
    ensures
        remove_all(Seq::<u8>::empty(), bearer_prefix()) == Seq::<u8>::empty(),
        remove_all(seq![66u8, 101u8, 97u8, 114u8, 101u8, 114u8, 32u8] + s, bearer_prefix())
            == remove_all(s, bearer_prefix()),
        s.len() > 0 && !(s.len() >= 7 && s.take(7) == seq![
            66u8,
            101u8,
            97u8,
            114u8,
            101u8,
            114u8,
            32u8,
        ]) ==> remove_all(s, bearer_prefix()) == seq![s[0]] + remove_all(
            s.skip(1),
            bearer_prefix(),
        ),
{
    lemma_remove_all_after_prefix(s);
    if s.len() >= 7 {
        assert(s.subrange(0, 7) =~= s.take(7));
    }
}

} // verus!
