//! The collision-safe path allocator: splits a suggested name into stem and
//! extension, and picks the first free name among `name`, `stem (1).ext`,
//! `stem (2).ext`, ... against the names already present in the owner's
//! storage partition.
use crate::text;
use vstd::prelude::*;
use vstd::string::*;

verus! {

/// The final unique name and the full path assigned on the owner's storage
/// partition.
pub struct FileInfo {
    pub name: String,
    pub path: String,
}

/// Index of the last `.` in `s`, or `-1` when `s` holds none.
pub open spec fn last_dot(s: Seq<char>) -> int
    decreases s.len(),
{
    if s.len() == 0 {
        -1
    } else if s.last() == '.' {
        s.len() - 1
    } else {
        last_dot(s.drop_last())
    }
}

/// A position below which the last `.` sits (or that is the very start) and
/// past which no `.` occurs pins `last_dot` down.
pub proof fn lemma_last_dot_from_scan(s: Seq<char>, i: int)
    requires
        0 <= i <= s.len(),
        forall|j: int| i <= j < s.len() ==> s[j] != '.',
        i > 0 ==> s[i - 1] == '.',
    ensures
        last_dot(s) == i - 1,
    decreases s.len(),
{
    if i < s.len() {
        lemma_last_dot_from_scan(s.drop_last(), i);
    }
}

/// The stem of a suggested name: what stands before the last `.`, except
/// that a name whose only `.` leads it keeps it, and an empty name falls
/// back to `downloaded`.
pub open spec fn stem_spec(s: Seq<char>) -> Seq<char> {
    if s.len() == 0 {
        "downloaded"@
    } else if last_dot(s) > 0 {
        s.subrange(0, last_dot(s))
    } else {
        s
    }
}

/// The extension of a suggested name: what stands after the last `.`, when
/// that `.` neither leads the name nor is missing.
pub open spec fn ext_spec(s: Seq<char>) -> Option<Seq<char>> {
    if s.len() != 0 && last_dot(s) > 0 {
        Some(s.subrange(last_dot(s) + 1, s.len() as int))
    } else {
        None
    }
}

/// The extension with its leading dot, or nothing.
pub open spec fn dot_ext_spec(s: Seq<char>) -> Seq<char> {
    match ext_spec(s) {
        Some(e) => seq!['.'] + e,
        None => Seq::empty(),
    }
}

/// Splits a suggested file name into its stem and its extension.
pub fn get_name_extension(path: &str) -> (r: (&str, Option<&str>))
    ensures
        r.0@ == stem_spec(path@),
        r.1.deep_view() == ext_spec(path@),
{
    let n = path.unicode_len();
    if n == 0 {
        return ("downloaded", None);
    }
    let mut i: usize = n;
    while i > 0
        invariant
            i <= n,
            n == path@.len(),
            forall|j: int| i <= j < n ==> path@[j] != '.',
        decreases i,
    {
        if path.get_char(i - 1) == '.' {
            proof {
                lemma_last_dot_from_scan(path@, i as int);
            }
            if i - 1 > 0 {
                return (path.substring_char(0, i - 1), Some(path.substring_char(i, n)));
            } else {
                return (path, None);
            }
        }
        i -= 1;
    }
    proof {
        lemma_last_dot_from_scan(path@, 0);
    }
    (path, None)
}

/// Whether `name` is already present among `existing`.
pub open spec fn name_taken(existing: Seq<Seq<char>>, name: Seq<char>) -> bool {
    existing.contains(name)
}

/// Whether `name` is among the names in `existing`.
fn contains_name(existing: &Vec<String>, name: &str) -> (b: bool)
    ensures
        b == name_taken(existing.deep_view(), name@),
{
    let mut k: usize = 0;
    while k < existing.len()
        invariant
            k <= existing@.len(),
            forall|j: int| 0 <= j < k ==> existing.deep_view()[j] != name@,
        decreases existing@.len() - k,
    {
        if text::str_eq(existing[k].as_str(), name) {
            proof {
                assert(existing.deep_view()[k as int] == name@);
            }
            return true;
        }
        k += 1;
    }
    proof {
        if existing.deep_view().contains(name@) {
            let j = choose|j: int|
                0 <= j < existing.deep_view().len() && existing.deep_view()[j] == name@;
            assert(existing.deep_view()[j] != name@);
        }
    }
    false
}

/// The `i`-th disambiguated name: the stem, a parenthesized decimal `i`,
/// and the dotted extension.
pub open spec fn numbered_name(stem: Seq<char>, dot_ext: Seq<char>, i: nat) -> Seq<char> {
    stem + seq![' ', '('] + text::dec_spec(i) + seq![')'] + dot_ext
}

/// The `i`-th name the allocator tries for a suggested name: the name
/// itself first, then its numbered variants.
pub open spec fn candidate_name(intended: Seq<char>, i: nat) -> Seq<char> {
    if i == 0 {
        intended
    } else {
        numbered_name(stem_spec(intended), dot_ext_spec(intended), i)
    }
}

/// Candidate `i` is free and every candidate before it is taken.
pub open spec fn is_first_free(existing: Seq<Seq<char>>, intended: Seq<char>, i: nat) -> bool {
    &&& !name_taken(existing, candidate_name(intended, i))
    &&& forall|j: nat| j < i ==> name_taken(existing, candidate_name(intended, j))
}

/// There is at most one first free candidate: together with the allocator's
/// contract this pins the allocated name down completely.
pub proof fn lemma_first_free_unique(
    existing: Seq<Seq<char>>,
    intended: Seq<char>,
    i: nat,
    j: nat,
)
    requires
        is_first_free(existing, intended, i),
        is_first_free(existing, intended, j),
    ensures
        i == j,
{
    if i < j {
        assert(name_taken(existing, candidate_name(intended, i)));
    }
    if j < i {
        assert(name_taken(existing, candidate_name(intended, j)));
    }
}

/// Distinct indices give distinct numbered names.
proof fn lemma_numbered_name_injective(stem: Seq<char>, dot_ext: Seq<char>, i: nat, j: nat)
    requires
        numbered_name(stem, dot_ext, i) == numbered_name(stem, dot_ext, j),
    ensures
        i == j,
{
    let a = text::dec_spec(i);
    let b = text::dec_spec(j);
    text::lemma_dec_spec_digits(i);
    text::lemma_dec_spec_digits(j);
    let fa = numbered_name(stem, dot_ext, i);
    let fb = numbered_name(stem, dot_ext, j);
    let p = stem.len() + 2;
    assert(fa.len() == p + a.len() + 1 + dot_ext.len());
    assert(fb.len() == p + b.len() + 1 + dot_ext.len());
    assert(a.len() == b.len());
    assert forall|k: int| 0 <= k < a.len() implies a[k] == b[k] by {
        assert(fa[p + k] == a[k]);
        assert(fb[p + k] == b[k]);
    }
    assert(a =~= b);
    text::lemma_dec_spec_injective(i, j);
}

/// The numbered names up to one past the count of existing names are more
/// than the existing names, and pairwise distinct: one of them is free.
proof fn lemma_some_candidate_free(existing: Seq<Seq<char>>, stem: Seq<char>, dot_ext: Seq<char>)
    ensures
        exists|i: nat|
            1 <= i <= existing.len() + 1 && !name_taken(
                existing,
                numbered_name(stem, dot_ext, i),
            ),
{
    let m = existing.len() + 1;
    if forall|i: nat|
        1 <= i <= existing.len() + 1 ==> name_taken(existing, numbered_name(stem, dot_ext, i)) {
        let cands = Seq::new(m as nat, |k: int| numbered_name(stem, dot_ext, (k + 1) as nat));
        assert(cands.no_duplicates()) by {
            assert forall|k1: int, k2: int|
                0 <= k1 < m && 0 <= k2 < m && k1 != k2 implies cands[k1] != cands[k2] by {
                if cands[k1] == cands[k2] {
                    lemma_numbered_name_injective(stem, dot_ext, (k1 + 1) as nat, (k2 + 1) as nat);
                }
            }
        }
        cands.unique_seq_to_set();
        existing.lemma_cardinality_of_set();
        assert(cands.to_set().subset_of(existing.to_set())) by {
            assert forall|x: Seq<char>|
                cands.to_set().contains(x) implies existing.to_set().contains(x) by {
                let k = choose|k: int| 0 <= k < cands.len() && cands[k] == x;
                assert(name_taken(existing, numbered_name(stem, dot_ext, (k + 1) as nat)));
            }
        }
        vstd::set_lib::lemma_len_subset(cands.to_set(), existing.to_set());
        assert(false);
    }
}

/// The numbered variant of a name, built from its parts.
fn make_numbered(stem: &str, dot_ext: &str, i: u64) -> (r: String)
    ensures
        r@ == numbered_name(stem@, dot_ext@, i as nat),
{
    let mut r = String::from_str(stem);
    r.append(" (");
    let num = text::u64_to_string(i);
    r.append(num.as_str());
    r.append(")");
    r.append(dot_ext);
    proof {
        reveal_strlit(" (");
        reveal_strlit(")");
        assert(" ("@ =~= seq![' ', '(']);
        assert(")"@ =~= seq![')']);
        assert(r@ =~= numbered_name(stem@, dot_ext@, i as nat));
    }
    r
}

/// The owner's storage-partition directory.
pub open spec fn download_dir_spec(username: Seq<char>) -> Seq<char> {
    "./downloads/"@ + username + "/"@
}

/// Allocates a unique destination for a suggested name on the owner's
/// storage partition, given the names already present there: the suggested
/// name itself when free, else the first free numbered variant, counting up
/// from 1. The check against `existing` is not atomic against concurrent
/// allocators for the same owner and name; single-writer-per-name is not
/// guaranteed.
pub fn get_file_info(intended_name: &str, username: &str, existing: &Vec<String>) -> (r: FileInfo)
    requires
        existing@.len() < usize::MAX,
    ensures
        exists|i: nat|
            #[trigger] is_first_free(existing.deep_view(), intended_name@, i) && r.name@
                == candidate_name(intended_name@, i),
        !name_taken(existing.deep_view(), r.name@),
        !name_taken(existing.deep_view(), intended_name@) ==> r.name@ == intended_name@,
        r.path@ == download_dir_spec(username@) + r.name@,
{
    let mut path = String::from_str("./downloads/");
    path.append(username);
    path.append("/");
    proof {
        assert(path@ =~= download_dir_spec(username@));
    }
    if !contains_name(existing, intended_name) {
        let name = String::from_str(intended_name);
        path.append(name.as_str());
        proof {
            assert(is_first_free(existing.deep_view(), intended_name@, 0));
        }
        return FileInfo { name, path };
    }
    let (stem, ext) = get_name_extension(intended_name);
    let mut dot_ext = String::new();
    match ext {
        Some(e) => {
            text::push_char(&mut dot_ext, '.');
            dot_ext.append(e);
            proof {
                assert(dot_ext@ =~= dot_ext_spec(intended_name@));
            }
        },
        None => {
            proof {
                assert(dot_ext@ =~= dot_ext_spec(intended_name@));
            }
        },
    }
    let mut i: usize = 1;
    loop
        invariant
            1 <= i <= existing@.len() + 1,
            existing@.len() < usize::MAX,
            stem@ == stem_spec(intended_name@),
            dot_ext@ == dot_ext_spec(intended_name@),
            path@ == download_dir_spec(username@),
            forall|j: nat|
                j < i ==> #[trigger] name_taken(
                    existing.deep_view(),
                    candidate_name(intended_name@, j),
                ),
        decreases existing@.len() + 1 - i,
    {
        let cand = make_numbered(stem, dot_ext.as_str(), i as u64);
        proof {
            assert(cand@ == candidate_name(intended_name@, i as nat));
        }
        if !contains_name(existing, cand.as_str()) {
            path.append(cand.as_str());
            proof {
                assert(is_first_free(existing.deep_view(), intended_name@, i as nat));
                assert(name_taken(existing.deep_view(), candidate_name(intended_name@, 0)));
            }
            return FileInfo { name: cand, path };
        }
        proof {
            if i == existing@.len() + 1 {
                lemma_some_candidate_free(existing.deep_view(), stem@, dot_ext@);
                let k = choose|k: nat|
                    1 <= k <= existing.deep_view().len() + 1 && !name_taken(
                        existing.deep_view(),
                        numbered_name(stem@, dot_ext@, k),
                    );
                assert(name_taken(existing.deep_view(), candidate_name(intended_name@, k)));
            }
        }
        i += 1;
    }
}

} // verus!
