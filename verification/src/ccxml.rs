use vstd::prelude::*;
use vstd::utf8::{decode_utf8, valid_utf8};

verus! {

/// `text` with every occurrence of `pat` replaced by `rep`, matches taken
/// from the left without overlapping; an empty pattern matches before every
/// character and at the end.
pub open spec fn replace_all(text: Seq<char>, pat: Seq<char>, rep: Seq<char>) -> Seq<char>
    decreases text.len(),
{
    if pat.len() == 0 {
        if text.len() == 0 {
            rep
        } else {
            rep + seq![text[0]] + replace_all(text.subrange(1, text.len() as int), pat, rep)
        }
    } else if text.len() < pat.len() {
        text
    } else if text.subrange(0, pat.len() as int) == pat {
        rep + replace_all(text.subrange(pat.len() as int, text.len() as int), pat, rep)
    } else {
        seq![text[0]] + replace_all(text.subrange(1, text.len() as int), pat, rep)
    }
}

/// The placeholder for the serial number of the debug probe.
pub open spec fn serial_number_placeholder() -> Seq<char> {
    "<<<SERIAL NUMBER>>>"@
}

/// The placeholder for the device's description.
pub open spec fn device_desc_placeholder() -> Seq<char> {
    "<<<DEVICE DESC>>>"@
}

/// The placeholder for the device's XML file.
pub open spec fn device_xml_placeholder() -> Seq<char> {
    "<<<DEVICE XML>>>"@
}

/// The placeholder for the device's identifier.
pub open spec fn device_id_placeholder() -> Seq<char> {
    "<<<DEVICE ID>>>"@
}

/// A target configuration template with its placeholders filled in, one
/// placeholder after the other.
pub open spec fn filled_ccxml(
    template: Seq<char>,
    xds: Seq<char>,
    desc: Seq<char>,
    xml: Seq<char>,
    id: Seq<char>,
) -> Seq<char> {
    let a = replace_all(template, serial_number_placeholder(), xds);
    let b = replace_all(a, device_desc_placeholder(), desc);
    let c = replace_all(b, device_xml_placeholder(), xml);
    replace_all(c, device_id_placeholder(), id)
}

/// What decoding `bytes` as UTF-8 gives when each invalid sequence becomes
/// U+FFFD.
pub uninterp spec fn utf8_lossy(bytes: Seq<u8>) -> Seq<char>;

/// Calls `String::from_utf8_lossy` (and takes the owned string). Trusted to
/// return `utf8_lossy` of the bytes, which for valid UTF-8 is its plain
/// decoding, as the function's documentation states. What it makes of
/// invalid sequences is left to the name.
#[verifier::external_body]
fn decode_lossy(bytes: &[u8]) -> (s: String)
    ensures
        s@ == utf8_lossy(bytes@),
        valid_utf8(bytes@) ==> s@ == decode_utf8(bytes@),
{
    String::from_utf8_lossy(bytes).into_owned()
}

/// Whether two strings hold the same characters.
pub(crate) fn str_equals(a: &str, b: &str) -> (res: bool)
    ensures
        res == (a@ == b@),
{
    let x = a.to_owned();
    let y = b.to_owned();
    x == y
}

/// Whether `pat` occurs in `text` starting at index `i`.
pub open spec fn occurs_at(text: Seq<char>, pat: Seq<char>, i: int) -> bool {
    0 <= i && i + pat.len() <= text.len() && text.subrange(i, i + pat.len()) == pat
}

/// Replacing a pattern that does not occur leaves the text as it is: a
/// template without placeholders comes out unchanged.
pub proof fn lemma_replace_all_without_match(text: Seq<char>, pat: Seq<char>, rep: Seq<char>)
    requires
        pat.len() > 0,
        forall|i: int| !occurs_at(text, pat, i),
    ensures
        replace_all(text, pat, rep) == text,
    decreases text.len(),
{
    if text.len() < pat.len() {
    } else {
        assert(!occurs_at(text, pat, 0));
        let tail = text.subrange(1, text.len() as int);
        assert forall|i: int| !occurs_at(tail, pat, i) by {
            if occurs_at(tail, pat, i) {
                assert(tail.subrange(i, i + pat.len()) =~= text.subrange(i + 1, i + 1 + pat.len()));
                assert(occurs_at(text, pat, i + 1));
            }
        }
        lemma_replace_all_without_match(tail, pat, rep);
        assert(text =~= seq![text[0]] + tail);
    }
}

/// A text that starts with the pattern has that occurrence replaced, and
/// replacing goes on right after it.
pub proof fn lemma_replace_all_leading_match(pat: Seq<char>, tail: Seq<char>, rep: Seq<char>)
    requires
        pat.len() > 0,
    ensures
        replace_all(pat + tail, pat, rep) == rep + replace_all(tail, pat, rep),
{
    let text = pat + tail;
    assert(text.subrange(0, pat.len() as int) =~= pat);
    assert(text.subrange(pat.len() as int, text.len() as int) =~= tail);
}

/// Whether an occurrence of `pat` in `a + b` starts inside `a` and ends
/// inside `b`.
pub open spec fn straddles(a: Seq<char>, b: Seq<char>, pat: Seq<char>) -> bool {
    exists|i: int| 0 <= i < a.len() && a.len() < i + pat.len() && occurs_at(a + b, pat, i)
}

proof fn lemma_occurs_shift(a: Seq<char>, b: Seq<char>, pat: Seq<char>, k: int, i: int)
    requires
        0 <= k <= a.len(),
        occurs_at(a.subrange(k, a.len() as int) + b, pat, i),
    ensures
        occurs_at(a + b, pat, i + k),
{
    let a2 = a.subrange(k, a.len() as int);
    assert((a2 + b).subrange(i, i + pat.len()) =~= (a + b).subrange(i + k, i + k + pat.len()));
}

/// Replacing in a concatenation is replacing in each part, when no
/// occurrence of the pattern spans the cut.
pub proof fn lemma_replace_all_concat(a: Seq<char>, b: Seq<char>, pat: Seq<char>, rep: Seq<char>)
    requires
        pat.len() > 0,
        !straddles(a, b, pat),
    ensures
        replace_all(a + b, pat, rep) == replace_all(a, pat, rep) + replace_all(b, pat, rep),
    decreases a.len(),
{
    let m = pat.len() as int;
    let ab = a + b;
    if a.len() == 0 {
        assert(ab =~= b);
        assert(replace_all(a, pat, rep) =~= Seq::<char>::empty());
        assert(Seq::<char>::empty() + replace_all(b, pat, rep) =~= replace_all(b, pat, rep));
    } else if ab.len() < m {
        assert(b.len() < m);
        assert(a.len() < m);
    } else if ab.subrange(0, m) == pat {
        if a.len() < m {
            assert(occurs_at(ab, pat, 0));
            assert(straddles(a, b, pat));
        }
        assert(a.subrange(0, m) =~= ab.subrange(0, m));
        let a2 = a.subrange(m, a.len() as int);
        assert(ab.subrange(m, ab.len() as int) =~= a2 + b);
        assert forall|i: int| 0 <= i < a2.len() && a2.len() < i + m implies !occurs_at(a2 + b, pat, i) by {
            if occurs_at(a2 + b, pat, i) {
                lemma_occurs_shift(a, b, pat, m, i);
                assert(straddles(a, b, pat));
            }
        }
        lemma_replace_all_concat(a2, b, pat, rep);
        assert((rep + replace_all(a2, pat, rep)) + replace_all(b, pat, rep)
            =~= rep + (replace_all(a2, pat, rep) + replace_all(b, pat, rep)));
    } else {
        let a2 = a.subrange(1, a.len() as int);
        assert(ab.subrange(1, ab.len() as int) =~= a2 + b);
        assert(ab[0] == a[0]);
        assert forall|i: int| 0 <= i < a2.len() && a2.len() < i + m implies !occurs_at(a2 + b, pat, i) by {
            if occurs_at(a2 + b, pat, i) {
                lemma_occurs_shift(a, b, pat, 1, i);
                assert(straddles(a, b, pat));
            }
        }
        lemma_replace_all_concat(a2, b, pat, rep);
        if a.len() < m {
            lemma_replace_all_short(a, pat, rep);
            lemma_replace_all_short(a2, pat, rep);
            assert(a =~= seq![a[0]] + a2);
        } else {
            assert(a.subrange(0, m) =~= ab.subrange(0, m));
        }
        assert((seq![a[0]] + replace_all(a2, pat, rep)) + replace_all(b, pat, rep)
            =~= seq![a[0]] + (replace_all(a2, pat, rep) + replace_all(b, pat, rep)));
    }
}

proof fn lemma_replace_all_short(text: Seq<char>, pat: Seq<char>, rep: Seq<char>)
    requires
        0 < pat.len(),
        text.len() < pat.len(),
    ensures
        replace_all(text, pat, rep) == text,
{
}

fn replace_empty(text: &str, rep: &str) -> (res: String)
    ensures
        res@ == replace_all(text@, Seq::<char>::empty(), rep@),
{
    let n = text.unicode_len();
    let mut out = String::new();
    let mut i: usize = 0;
    assert(text@.subrange(0, n as int) =~= text@);
    while i < n
        invariant
            n == text@.len(),
            i <= n,
            replace_all(text@, Seq::<char>::empty(), rep@) == out@ + replace_all(
                text@.subrange(i as int, n as int),
                Seq::<char>::empty(),
                rep@,
            ),
        decreases n - i,
    {
        let ghost rest = text@.subrange(i as int, n as int);
        let c = text.substring_char(i, i + 1);
        assert(rest.subrange(1, rest.len() as int) =~= text@.subrange((i + 1) as int, n as int));
        assert(c@ =~= seq![rest[0]]);
        let ghost before = out@;
        out.append(rep);
        out.append(c);
        assert(out@ =~= before + (rep@ + seq![rest[0]]));
        i = i + 1;
    }
    assert(text@.subrange(n as int, n as int) =~= Seq::<char>::empty());
    out.append(rep);
    out
}

/// Replaces every occurrence of `pat` in `text` by `rep`.
pub fn replace(text: &str, pat: &str, rep: &str) -> (res: String)
    ensures
        res@ == replace_all(text@, pat@, rep@),
{
    let n = text.unicode_len();
    let m = pat.unicode_len();
    if m == 0 {
        assert(pat@ =~= Seq::<char>::empty());
        return replace_empty(text, rep);
    }
    let mut out = String::new();
    let mut i: usize = 0;
    assert(text@.subrange(0, n as int) =~= text@);
    while i < n
        invariant
            n == text@.len(),
            m == pat@.len(),
            m > 0,
            i <= n,
            replace_all(text@, pat@, rep@) == out@ + replace_all(text@.subrange(i as int, n as int), pat@, rep@),
        decreases n - i,
    {
        let ghost rest = text@.subrange(i as int, n as int);
        if m <= n - i && str_equals(text.substring_char(i, i + m), pat) {
            assert(rest.subrange(0, m as int) =~= text@.subrange(i as int, (i + m) as int));
            assert(rest.subrange(m as int, rest.len() as int) =~= text@.subrange((i + m) as int, n as int));
            out.append(rep);
            i = i + m;
        } else {
            let c = text.substring_char(i, i + 1);
            assert(rest.subrange(1, rest.len() as int) =~= text@.subrange((i + 1) as int, n as int));
            proof {
                if rest.len() < m {
                    lemma_replace_all_short(rest, pat@, rep@);
                    lemma_replace_all_short(rest.subrange(1, rest.len() as int), pat@, rep@);
                } else {
                    assert(rest.subrange(0, m as int) =~= text@.subrange(i as int, (i + m) as int));
                }
            }
            assert(rest =~= seq![rest[0]] + rest.subrange(1, rest.len() as int));
            assert(c@ =~= seq![rest[0]]);
            out.append(c);
            i = i + 1;
        }
    }
    assert(text@.subrange(n as int, n as int) =~= Seq::<char>::empty());
    assert(out@ + Seq::<char>::empty() =~= out@);
    out
}

/// Fills the placeholders of a target configuration template: the probe's
/// serial number, then the device's description, XML file and identifier.
pub fn fill_ccxml_template(template: &str, xds: &str, desc: &str, xml: &str, id: &str) -> (res: String)
    ensures
        res@ == filled_ccxml(template@, xds@, desc@, xml@, id@),
{
    proof {
        reveal_strlit("<<<SERIAL NUMBER>>>");
        reveal_strlit("<<<DEVICE DESC>>>");
        reveal_strlit("<<<DEVICE XML>>>");
        reveal_strlit("<<<DEVICE ID>>>");
    }
    let a = replace(template, "<<<SERIAL NUMBER>>>", xds);
    let b = replace(a.as_str(), "<<<DEVICE DESC>>>", desc);
    let c = replace(b.as_str(), "<<<DEVICE XML>>>", xml);
    replace(c.as_str(), "<<<DEVICE ID>>>", id)
}

/// The text of a target configuration: the embedded template's bytes,
/// decoded as UTF-8 with invalid sequences replaced, with its placeholders
/// filled in.
pub fn ccxml_content(template: &[u8], xds: &str, desc: &str, xml: &str, id: &str) -> (res: String)
    ensures
        res@ == filled_ccxml(utf8_lossy(template@), xds@, desc@, xml@, id@),
{
    let text = decode_lossy(template);
    fill_ccxml_template(text.as_str(), xds, desc, xml, id)
}

} // verus!
