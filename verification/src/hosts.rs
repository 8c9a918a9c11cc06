//! The hosts table: lines of text whose first tab-separated field is an
//! address. A host name is looked up by plain containment in a line, and the
//! last line that holds it decides.
use vstd::prelude::*;
use crate::text::{contains, contains_chars, first_field, first_field_of, split, split_chars};

verus! {

/// The last of `lines` that contains `name`.
pub open spec fn last_match(lines: Seq<Seq<char>>, name: Seq<char>) -> Option<Seq<char>>
    decreases lines.len(),
{
    if lines.len() == 0 {
        None
    } else if contains(lines.last(), name) {
        Some(lines.last())
    } else {
        last_match(lines.drop_last(), name)
    }
}

/// The address that the table gives for `name`: the first tab-separated field
/// of the last line that contains `name`, if there is such a line.
pub open spec fn host_address(hosts: Seq<char>, name: Seq<char>) -> Option<Seq<char>> {
    match last_match(split(hosts, '\n'), name) {
        Some(line) => Some(first_field(line, '\t')),
        None => None,
    }
}

/// A line that contains the name, with no such line after it, is the match:
/// of several matching lines the last one wins.
pub proof fn lemma_last_match_wins(lines: Seq<Seq<char>>, name: Seq<char>, j: int)
    requires
        0 <= j < lines.len(),
        contains(lines[j], name),
        forall|k: int| j < k < lines.len() ==> !contains(#[trigger] lines[k], name),
    ensures
        last_match(lines, name) == Some(lines[j]),
    decreases lines.len(),
{
    if j < lines.len() - 1 {
        assert(!contains(lines[lines.len() - 1], name));
        lemma_last_match_wins(lines.drop_last(), name, j);
    }
}

/// There is a match exactly when some line contains the name.
pub proof fn lemma_last_match_some(lines: Seq<Seq<char>>, name: Seq<char>)
    ensures
        last_match(lines, name) is Some <==> exists|k: int|
            0 <= k < lines.len() && contains(#[trigger] lines[k], name),
    decreases lines.len(),
{
    if lines.len() > 0 {
        let front = lines.drop_last();
        lemma_last_match_some(front, name);
        if contains(lines.last(), name) {
            assert(contains(lines[lines.len() - 1], name));
        } else if last_match(front, name) is Some {
            let k = choose|k: int| 0 <= k < front.len() && contains(#[trigger] front[k], name);
            assert(contains(lines[k], name));
        } else {
            assert forall|k: int| 0 <= k < lines.len() implies !contains(
                #[trigger] lines[k],
                name,
            ) by {
                if k < front.len() {
                    assert(front[k] == lines[k]);
                }
            }
        }
    }
}

/// Looks `name` up in the table `hosts`.
pub fn find_host_address<'a>(hosts: &'a [char], name: &[char]) -> (r: Option<&'a [char]>)
    ensures
        match host_address(hosts@, name@) {
            Some(address) => r is Some && r.unwrap()@ == address,
            None => r is None,
        },
{
    let lines = split_chars(hosts, '\n');
    let ghost all = split(hosts@, '\n');
    let mut found: Option<&[char]> = None;
    let mut i: usize = 0;
    while i < lines.len()
        invariant
            i <= lines.len(),
            lines@.len() == all.len(),
            forall|k: int| 0 <= k < lines@.len() ==> (#[trigger] lines@[k])@ == all[k],
            match last_match(all.take(i as int), name@) {
                Some(line) => found is Some && found.unwrap()@ == first_field(line, '\t'),
                None => found is None,
            },
        decreases lines.len() - i,
    {
        let line = lines[i];
        assert(all.take(i + 1).drop_last() =~= all.take(i as int));
        assert(all.take(i + 1).last() == line@);
        if contains_chars(line, name) {
            found = Some(first_field_of(line, '\t'));
        }
        i += 1;
    }
    assert(all.take(i as int) =~= all);
    found
}

} // verus!
