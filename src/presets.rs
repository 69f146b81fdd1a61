//! Preset identifiers: which names may select a preset file, so that an
//! identifier never reaches outside the presets directory.
use vstd::prelude::*;
use vstd::string::*;
use crate::types::PresetMetadata;

verus! {

/// Whether `char::is_alphanumeric` holds of the character: Unicode's
/// Alphabetic or Numeric property.
pub uninterp spec fn alphanumeric(c: char) -> bool;

/// Relies on `char::is_alphanumeric`: whether the character is alphabetic
/// or numeric, which depends on the character alone.
#[verifier::external_body]
fn is_alphanumeric(c: char) -> (r: bool)
    ensures
        r == alphanumeric(c),
{
    c.is_alphanumeric()
}

/// A preset identifier is made of alphanumeric characters, `-` and `_`.
pub open spec fn id_allowed(id: Seq<char>, alnum: Seq<bool>) -> bool {
    forall|i: int| 0 <= i < id.len() ==> alnum[i] || id[i] == '-' || id[i] == '_'
}

/// Whether `id` is an acceptable preset identifier, given for each of its
/// characters whether it is alphanumeric.
pub fn preset_id_allowed(id: &str, alnum: &Vec<bool>) -> (r: bool)
    requires
        alnum@.len() == id@.len(),
    ensures
        r == id_allowed(id@, alnum@),
{
    let n = id.unicode_len();
    let mut i: usize = 0;
    while i < n
        invariant
            n == id@.len(),
            alnum@.len() == n,
            i <= n,
            forall|j: int| 0 <= j < i ==> alnum@[j] || id@[j] == '-' || id@[j] == '_',
        decreases n - i,
    {
        let c = id.get_char(i);
        if !(alnum[i] || c == '-' || c == '_') {
            return false;
        }
        i = i + 1;
    }
    true
}

/// Whether `id` may name a preset: every character alphanumeric, `-` or `_`.
pub fn is_valid_preset_id(id: &str) -> (r: bool)
    ensures
        r == id_allowed(id@, id@.map_values(|c: char| alphanumeric(c))),
{
    let n = id.unicode_len();
    let mut alnum: Vec<bool> = Vec::new();
    let mut i: usize = 0;
    while i < n
        invariant
            n == id@.len(),
            i <= n,
            alnum@ == id@.subrange(0, i as int).map_values(|c: char| alphanumeric(c)),
        decreases n - i,
    {
        alnum.push(is_alphanumeric(id.get_char(i)));
        i = i + 1;
        assert(alnum@ =~= id@.subrange(0, i as int).map_values(|c: char| alphanumeric(c)));
    }
    assert(id@.subrange(0, n as int) =~= id@);
    preset_id_allowed(id, &alnum)
}

/// The file that holds the preset named `id`.
pub fn preset_file_name(id: &str) -> (r: String)
    ensures
        r@ == id@ + ".json"@,
{
    let mut r = String::from_str(id);
    r.append(".json");
    r
}

/// Lexicographic order by code point, the order of `str`'s comparison.
pub open spec fn name_le(a: Seq<char>, b: Seq<char>) -> bool
    decreases a.len(),
{
    if a.len() == 0 {
        true
    } else if b.len() == 0 {
        false
    } else if a[0] as u32 != b[0] as u32 {
        (a[0] as u32) < (b[0] as u32)
    } else {
        name_le(a.drop_first(), b.drop_first())
    }
}

proof fn lemma_name_le_total(a: Seq<char>, b: Seq<char>)
    ensures
        name_le(a, b) || name_le(b, a),
    decreases a.len(),
{
    if a.len() > 0 && b.len() > 0 && a[0] as u32 == b[0] as u32 {
        lemma_name_le_total(a.drop_first(), b.drop_first());
    }
}

proof fn lemma_name_le_transitive(a: Seq<char>, b: Seq<char>, c: Seq<char>)
    requires
        name_le(a, b),
        name_le(b, c),
    ensures
        name_le(a, c),
    decreases a.len(),
{
    if a.len() > 0 && b.len() > 0 && c.len() > 0 && a[0] as u32 == b[0] as u32 && b[0] as u32
        == c[0] as u32 {
        lemma_name_le_transitive(a.drop_first(), b.drop_first(), c.drop_first());
    }
}

/// Whether `a` comes no later than `b` by name.
fn names_in_order(a: &str, b: &str) -> (r: bool)
    ensures
        r == name_le(a@, b@),
{
    let n = a.unicode_len();
    let m = b.unicode_len();
    let mut i: usize = 0;
    assert(a@.subrange(0, n as int) =~= a@);
    assert(b@.subrange(0, m as int) =~= b@);
    while i < n && i < m
        invariant
            n == a@.len(),
            m == b@.len(),
            i <= n,
            i <= m,
            name_le(a@, b@) == name_le(
                a@.subrange(i as int, n as int),
                b@.subrange(i as int, m as int),
            ),
        decreases n - i,
    {
        let x = a.get_char(i);
        let y = b.get_char(i);
        assert(a@.subrange(i as int, n as int)[0] == x);
        assert(b@.subrange(i as int, m as int)[0] == y);
        if x as u32 != y as u32 {
            return (x as u32) < (y as u32);
        }
        assert(a@.subrange(i as int, n as int).drop_first() =~= a@.subrange(i + 1, n as int));
        assert(b@.subrange(i as int, m as int).drop_first() =~= b@.subrange(i + 1, m as int));
        i = i + 1;
    }
    i == n
}

/// Names ascend along the list.
pub open spec fn sorted_by_name(s: Seq<PresetMetadata>) -> bool {
    forall|i: int, j: int| 0 <= i < j < s.len() ==> name_le(s[i].name@, s[j].name@)
}

/// The same presets, ordered by name.
pub fn sort_presets_by_name(presets: Vec<PresetMetadata>) -> (r: Vec<PresetMetadata>)
    ensures
        sorted_by_name(r@),
        r@.to_multiset() == presets@.to_multiset(),
{
    broadcast use vstd::seq_lib::group_to_multiset_ensures;

    let ghost all = presets@;
    let mut rest = presets;
    let mut out: Vec<PresetMetadata> = Vec::new();
    while rest.len() > 0
        invariant
            sorted_by_name(out@),
            out@.to_multiset().add(rest@.to_multiset()) == all.to_multiset(),
        decreases rest.len(),
    {
        let ghost before_rest = rest@;
        let p = match rest.pop() {
            Some(p) => p,
            None => {
                return out;
            },
        };
        assert(before_rest =~= rest@.push(p));
        let n = out.len();
        let mut k: usize = 0;
        while k < n && !names_in_order(p.name.as_str(), out[k].name.as_str())
            invariant
                n == out@.len(),
                k <= n,
                forall|i: int| 0 <= i < k ==> !name_le(p.name@, out@[i].name@),
            decreases n - k,
        {
            k = k + 1;
        }
        let ghost old_out = out@;
        out.insert(k, p);
        proof {
            assert(out@ =~= old_out.insert(k as int, p));
            assert(out@.remove(k as int) =~= old_out);
            assert(out@[k as int] == p);
            assert(out@.to_multiset() =~= old_out.to_multiset().insert(p)) by {
                assert(out@.contains(p));
                out@.to_multiset_ensures();
                assert(out@.to_multiset().count(p) > 0);
                assert(out@.remove(k as int).to_multiset() =~= out@.to_multiset().remove(p));
            }
            rest@.to_multiset_ensures();
            assert(before_rest.to_multiset() =~= rest@.to_multiset().insert(p));
            assert(out@.to_multiset().add(rest@.to_multiset()) =~= all.to_multiset());
            assert forall|i: int, j: int| 0 <= i < j < out@.len() implies name_le(
                out@[i].name@,
                out@[j].name@,
            ) by {
                if j < k {
                    assert(out@[i] == old_out[i]);
                    assert(out@[j] == old_out[j]);
                } else if j == k {
                    assert(out@[i] == old_out[i]);
                    lemma_name_le_total(p.name@, old_out[i].name@);
                } else if i > k {
                    assert(out@[i] == old_out[i - 1]);
                    assert(out@[j] == old_out[j - 1]);
                } else if i == k {
                    assert(out@[j] == old_out[j - 1]);
                    if k < n {
                        if j - 1 > k {
                            lemma_name_le_transitive(
                                p.name@,
                                old_out[k as int].name@,
                                old_out[j - 1].name@,
                            );
                        }
                    }
                } else {
                    assert(out@[i] == old_out[i]);
                    assert(out@[j] == old_out[j - 1]);
                }
            }
        }
    }
    assert(rest@ =~= Seq::<PresetMetadata>::empty());
    out
}

} // verus!
