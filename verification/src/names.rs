//! The extension filter: a file takes part in synchronization exactly when
//! its name carries the fixed `.json` suffix, case-sensitively.

use vstd::prelude::*;
use vstd::string::StrSliceExecFns;

verus! {

/// A filename is visible to the engine exactly when it ends in `.json`
/// (exact, case-sensitive suffix match).
pub open spec fn is_json_spec(name: Seq<char>) -> bool {
    &&& name.len() >= 5
    &&& name[name.len() - 5] == '.'
    &&& name[name.len() - 4] == 'j'
    &&& name[name.len() - 3] == 's'
    &&& name[name.len() - 2] == 'o'
    &&& name[name.len() - 1] == 'n'
}

/// Decides whether a filename is visible to the engine.
pub fn is_json_name(name: &str) -> (r: bool)
    ensures
        r == is_json_spec(name@),
{
    let n = name.unicode_len();
    if n < 5 {
        return false;
    }
    name.get_char(n - 5) == '.' && name.get_char(n - 4) == 'j' && name.get_char(n - 3) == 's'
        && name.get_char(n - 2) == 'o' && name.get_char(n - 1) == 'n'
}

/// The views of a sequence of owned filenames.
pub open spec fn views_of(names: Seq<String>) -> Seq<Seq<char>> {
    names.map_values(|s: String| s@)
}

/// The sub-sequence of `names` that passes the extension filter, in order.
pub open spec fn json_filter(names: Seq<Seq<char>>) -> Seq<Seq<char>>
    decreases names.len(),
{
    if names.len() == 0 {
        Seq::empty()
    } else if is_json_spec(names.last()) {
        json_filter(names.drop_last()).push(names.last())
    } else {
        json_filter(names.drop_last())
    }
}

/// Appending one name extends the filtered listing exactly when that name
/// carries the extension.
pub proof fn lemma_json_filter_push(names: Seq<Seq<char>>, name: Seq<char>)
    ensures
        json_filter(names.push(name)) == (if is_json_spec(name) {
            json_filter(names).push(name)
        } else {
            json_filter(names)
        }),
{
    assert(names.push(name).drop_last() =~= names);
    assert(names.push(name).last() == name);
}

/// A name without the extension never appears in a filtered listing.
pub proof fn lemma_json_filter_excludes(names: Seq<Seq<char>>, name: Seq<char>)
    requires
        !is_json_spec(name),
    ensures
        !json_filter(names).contains(name),
    decreases names.len(),
{
    if names.len() > 0 {
        lemma_json_filter_excludes(names.drop_last(), name);
        if is_json_spec(names.last()) {
            let filtered = json_filter(names.drop_last());
            assert forall|i: int| 0 <= i < filtered.push(names.last()).len() implies filtered.push(
                names.last(),
            )[i] != name by {
                if i < filtered.len() {
                    assert(!filtered.contains(name));
                }
            }
        }
    }
}

/// Every name in a filtered listing carries the extension and comes from the
/// unfiltered listing.
pub proof fn lemma_json_filter_member(names: Seq<Seq<char>>, name: Seq<char>)
    requires
        json_filter(names).contains(name),
    ensures
        names.contains(name),
        is_json_spec(name),
    decreases names.len(),
{
    if names.len() > 0 {
        let rest = json_filter(names.drop_last());
        if is_json_spec(names.last()) && name == names.last() {
            assert(names[names.len() - 1] == name);
        } else {
            if is_json_spec(names.last()) {
                let pushed = rest.push(names.last());
                let i = choose|i: int| 0 <= i < pushed.len() && pushed[i] == name;
                assert(rest[i] == name);
            }
            lemma_json_filter_member(names.drop_last(), name);
            let j = choose|j: int| 0 <= j < names.drop_last().len() && names.drop_last()[j] == name;
            assert(names[j] == name);
        }
    }
}

} // verus!
