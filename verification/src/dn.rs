//! Canonical rendering of a subject distinguished name: every assertion is
//! shown as `TYPE=value` (the value wrapped in double quotes when it holds a
//! comma), assertions of one relative distinguished name are joined with
//! commas in their native order, and the relative distinguished names are
//! joined with commas in reverse parse order, most specific first.

use vstd::prelude::*;
use vstd::string::*;

use crate::ext::{oid_abbrev, oid_abbrev_of, oid_dotted, oid_dotted_of};
use crate::model::{dn_view, rdn_view, Ava, AvaView};

verus! {

/// How an attribute type is displayed: its short abbreviation when the
/// registry has one, else its dotted-decimal form.
pub open spec fn spec_oid_display(oid: Seq<u8>) -> Seq<char> {
    match oid_abbrev_of(oid) {
        Some(s) => s,
        None => oid_dotted_of(oid),
    }
}

/// Displays an attribute-type object identifier.
pub fn oid_display(oid: &Vec<u8>) -> (r: String)
    ensures
        r@ == spec_oid_display(oid@),
{
    match oid_abbrev(oid.as_slice()) {
        Some(s) => s,
        None => oid_dotted(oid.as_slice()),
    }
}

/// Whether the text holds a comma anywhere.
pub open spec fn spec_has_comma(v: Seq<char>) -> bool {
    exists|i: int| 0 <= i < v.len() && v[i] == ','
}

/// A comma-holding value is wrapped whole in double quotes; embedded quote
/// characters are left alone, by design.
pub open spec fn spec_quoted(v: Seq<char>) -> Seq<char> {
    if spec_has_comma(v) {
        seq!['"'] + v + seq!['"']
    } else {
        v
    }
}

/// One assertion renders as `TYPE=value`, the value quoted when needed.
pub open spec fn spec_ava_str(a: AvaView) -> Seq<char> {
    spec_oid_display(a.oid) + seq!['='] + spec_quoted(a.value)
}

/// The given parts joined with single commas, in order.
pub open spec fn spec_join_comma(parts: Seq<Seq<char>>) -> Seq<char>
    decreases parts.len(),
{
    if parts.len() == 0 {
        Seq::empty()
    } else if parts.len() == 1 {
        parts[0]
    } else {
        spec_join_comma(parts.drop_last()) + seq![','] + parts.last()
    }
}

/// One relative distinguished name: its assertions joined with commas, in
/// native order.
pub open spec fn spec_rdn_str(rdn: Seq<AvaView>) -> Seq<char> {
    spec_join_comma(rdn.map_values(|a: AvaView| spec_ava_str(a)))
}

/// The whole rendered name: per-name parts in reverse parse order, joined
/// with commas.
pub open spec fn spec_reverse_dn(dn: Seq<Seq<AvaView>>) -> Seq<char> {
    spec_join_comma(dn.map_values(|r: Seq<AvaView>| spec_rdn_str(r)).reverse())
}

/// Law: the rendered name reverses the order of the relative distinguished
/// names — the rendered parts are the parsed parts read back to front — and
/// reversing that order a second time would restore the parse order. The
/// renderer itself reverses exactly once; the parts' contents are untouched.
pub proof fn lemma_reverse_dn_order(dn: Seq<Seq<AvaView>>)
    ensures
        spec_reverse_dn(dn) == spec_join_comma(
            Seq::new(dn.len(), |i: int| spec_rdn_str(dn[dn.len() - 1 - i])),
        ),
        dn.map_values(|r: Seq<AvaView>| spec_rdn_str(r)).reverse().reverse() =~= dn.map_values(
            |r: Seq<AvaView>| spec_rdn_str(r),
        ),
{
    let m = dn.map_values(|r: Seq<AvaView>| spec_rdn_str(r));
    assert(m.reverse() =~= Seq::new(dn.len(), |i: int| spec_rdn_str(dn[dn.len() - 1 - i])));
    assert(m.reverse().reverse() =~= m);
}

/// Law: comma-triggered quoting. A value holding a comma renders wrapped
/// whole in double quotes; a comma-free value renders unchanged. No other
/// escaping is performed, by design.
pub proof fn lemma_value_quoting(v: Seq<char>)
    ensures
        spec_has_comma(v) ==> spec_quoted(v) == seq!['"'] + v + seq!['"'],
        !spec_has_comma(v) ==> spec_quoted(v) == v,
{
}

/// Whether the string holds a comma.
pub fn has_comma(s: &str) -> (r: bool)
    ensures
        r == spec_has_comma(s@),
{
    let n: usize = s.unicode_len();
    let mut i: usize = 0;
    while i < n
        invariant
            n == s@.len(),
            0 <= i <= n,
            forall|j: int| 0 <= j < i ==> s@[j] != ',',
        decreases n - i,
    {
        if s.get_char(i) == ',' {
            assert(spec_has_comma(s@)) by {
                assert(s@[i as int] == ',');
            }
            return true;
        }
        i = i + 1;
    }
    false
}

/// Renders one assertion as `TYPE=value`.
pub fn ava_str(a: &Ava) -> (r: String)
    ensures
        r@ == spec_ava_str(a@),
{
    let mut r = oid_display(&a.oid_der);
    r.push('=');
    if has_comma(a.value.as_str()) {
        r.push('"');
        r.append(a.value.as_str());
        r.push('"');
    } else {
        r.append(a.value.as_str());
    }
    assert(r@ =~= spec_ava_str(a@));
    r
}

/// Joins the given parts with single commas, in order.
pub fn join_comma(parts: &Vec<String>) -> (r: String)
    ensures
        r@ == spec_join_comma(parts@.map_values(|s: String| s@)),
{
    let ghost m = parts@.map_values(|s: String| s@);
    let mut r = String::new();
    let n: usize = parts.len();
    let mut i: usize = 0;
    while i < n
        invariant
            n == parts@.len(),
            m == parts@.map_values(|s: String| s@),
            0 <= i <= n,
            r@ == spec_join_comma(m.take(i as int)),
        decreases n - i,
    {
        if i > 0 {
            r.push(',');
        }
        r.append(parts[i].as_str());
        proof {
            assert(m.take(i + 1 as int).drop_last() =~= m.take(i as int));
            assert(m.take(i + 1 as int).last() == m[i as int]);
            assert(r@ =~= spec_join_comma(m.take(i + 1 as int)));
        }
        i = i + 1;
    }
    proof {
        assert(m.take(n as int) =~= m);
    }
    r
}

/// Renders a whole subject distinguished name, most specific part first:
/// relative distinguished names are rendered in native order internally,
/// collected in parse order, then joined in reverse order.
pub fn reverse_dn(dn: &Vec<Vec<Ava>>) -> (r: String)
    ensures
        r@ == spec_reverse_dn(dn_view(dn@)),
{
    let ghost m = dn_view(dn@).map_values(|r: Seq<AvaView>| spec_rdn_str(r));
    let n: usize = dn.len();
    let mut parts: Vec<String> = Vec::new();
    let mut i: usize = 0;
    while i < n
        invariant
            n == dn@.len(),
            m == dn_view(dn@).map_values(|r: Seq<AvaView>| spec_rdn_str(r)),
            0 <= i <= n,
            parts@.len() == i,
            forall|j: int| 0 <= j < i ==> #[trigger] parts@[j]@ == m[j],
        decreases n - i,
    {
        let rdn = &dn[i];
        let mut avas: Vec<String> = Vec::new();
        let k: usize = rdn.len();
        let mut j: usize = 0;
        while j < k
            invariant
                k == rdn@.len(),
                0 <= j <= k,
                avas@.len() == j,
                forall|t: int| 0 <= t < j ==> #[trigger] avas@[t]@ == spec_ava_str(rdn@[t]@),
            decreases k - j,
        {
            avas.push(ava_str(&rdn[j]));
            j = j + 1;
        }
        proof {
            assert(avas@.map_values(|s: String| s@) =~= rdn_view(rdn@).map_values(
                |a: AvaView| spec_ava_str(a),
            ));
        }
        parts.push(join_comma(&avas));
        proof {
            assert(parts@[i as int]@ == spec_rdn_str(rdn_view(dn@[i as int]@)));
            assert(m[i as int] == spec_rdn_str(rdn_view(dn@[i as int]@)));
        }
        i = i + 1;
    }
    let mut rev: Vec<String> = Vec::new();
    let mut t: usize = 0;
    while t < n
        invariant
            n == parts@.len(),
            n == m.len(),
            forall|j: int| 0 <= j < n ==> #[trigger] parts@[j]@ == m[j],
            0 <= t <= n,
            rev@.len() == t,
            forall|j: int| 0 <= j < t ==> #[trigger] rev@[j]@ == m.reverse()[j],
        decreases n - t,
    {
        rev.push(parts[n - 1 - t].clone());
        proof {
            assert(rev@[t as int]@ == m[n - 1 - t as int]);
            assert(m.reverse()[t as int] == m[n - 1 - t as int]);
        }
        t = t + 1;
    }
    let r = join_comma(&rev);
    proof {
        assert(rev@.map_values(|s: String| s@) =~= m.reverse());
    }
    r
}

} // verus!

