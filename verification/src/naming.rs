//! Output file names that collide with no earlier task and no file on disk.
use vstd::prelude::*;
use vstd::set_lib::{lemma_int_range, lemma_len_subset, lemma_map_size, set_int_range};
use crate::decimal::{dec, lemma_dec_injective, lemma_dec_len, push_decimal};
use crate::records::{AppState, Record, record_names};
use crate::text::views;

verus! {

/// The `k`-th name tried for `stem` and `suffix`: `stem` + `suffix` first,
/// then `stem (1)` + `suffix`, `stem (2)` + `suffix`, and so on.
pub open spec fn candidate(stem: Seq<char>, suffix: Seq<char>, k: nat) -> Seq<char> {
    if k == 0 {
        stem + suffix
    } else {
        stem + seq![' ', '('] + dec(k) + seq![')'] + suffix
    }
}

/// The names in use: those of the recorded tasks, then those of the files on disk.
pub open spec fn used_names(records: Seq<Record>, on_disk: Seq<Seq<char>>) -> Seq<Seq<char>> {
    record_names(records) + on_disk
}

/// `k` is the first index whose candidate is not in `used`.
pub open spec fn is_first_free(stem: Seq<char>, suffix: Seq<char>, used: Seq<Seq<char>>, k: nat) -> bool {
    &&& !used.contains(candidate(stem, suffix, k))
    &&& forall|j: nat| j < k ==> used.contains(#[trigger] candidate(stem, suffix, j))
}

/// The first candidate name that is not in `used`.
pub open spec fn first_free_name(stem: Seq<char>, suffix: Seq<char>, used: Seq<Seq<char>>) -> Seq<char> {
    candidate(stem, suffix, choose|k: nat| is_first_free(stem, suffix, used, k))
}

/// Different indices give different candidate names.
pub proof fn lemma_candidate_injective(stem: Seq<char>, suffix: Seq<char>, a: nat, b: nat)
    requires
        candidate(stem, suffix, a) == candidate(stem, suffix, b),
    ensures
        a == b,
{
    lemma_dec_len(a);
    lemma_dec_len(b);
    let ca = candidate(stem, suffix, a);
    let cb = candidate(stem, suffix, b);
    if a > 0 && b > 0 {
        let lo: int = stem.len() + 2int;
        assert(ca.len() == lo + dec(a).len() + 1 + suffix.len());
        assert(cb.len() == lo + dec(b).len() + 1 + suffix.len());
        assert(ca.subrange(lo, lo + dec(a).len()) =~= dec(a));
        assert(cb.subrange(lo, lo + dec(b).len()) =~= dec(b));
        lemma_dec_injective(a, b);
    } else if a > 0 {
        assert(ca.len() > cb.len());
    } else if b > 0 {
        assert(cb.len() > ca.len());
    }
}

/// Fewer names than `m` cannot hold the first `m` candidates.
pub proof fn lemma_candidates_bounded(stem: Seq<char>, suffix: Seq<char>, used: Seq<Seq<char>>, m: nat)
    requires
        forall|j: nat| j < m ==> used.contains(#[trigger] candidate(stem, suffix, j)),
    ensures
        m <= used.len(),
{
    let x = set_int_range(0, m as int);
    let f = |j: int| candidate(stem, suffix, j as nat);
    lemma_int_range(0, m as int);
    assert forall|i: int, j: int| x.contains(i) && x.contains(j) && #[trigger] f(i) == #[trigger] f(
        j,
    ) implies i == j by {
        lemma_candidate_injective(stem, suffix, i as nat, j as nat);
    }
    let y = x.map(f);
    lemma_map_size(x, y, f);
    assert forall|n: Seq<char>| y.contains(n) implies used.to_set().contains(n) by {
        let i = choose|i: int| x.contains(i) && f(i) == n;
        assert(used.contains(candidate(stem, suffix, i as nat)));
    }
    used.lemma_cardinality_of_set();
    lemma_len_subset(y, used.to_set());
}

/// A first free index exists, and it is the only one.
pub proof fn lemma_first_free(stem: Seq<char>, suffix: Seq<char>, used: Seq<Seq<char>>, k: nat)
    requires
        is_first_free(stem, suffix, used, k),
    ensures
        first_free_name(stem, suffix, used) == candidate(stem, suffix, k),
{
    let c = choose|j: nat| is_first_free(stem, suffix, used, j);
    assert(is_first_free(stem, suffix, used, c));
    if c < k {
        assert(used.contains(candidate(stem, suffix, c)));
    } else if k < c {
        assert(used.contains(candidate(stem, suffix, k)));
    }
}

fn name_in_use(state: &AppState, on_disk: &Vec<String>, name: &String) -> (r: bool)
    ensures
        r == used_names(state.records@, views(on_disk@)).contains(name@),
{
    let ghost used = used_names(state.records@, views(on_disk@));
    let nr = state.records.len();
    let mut i: usize = 0;
    while i < nr
        invariant
            nr == state.records@.len(),
            i <= nr,
            used == used_names(state.records@, views(on_disk@)),
            forall|q: int| 0 <= q < i ==> used[q] != name@,
        decreases nr - i,
    {
        if state.records[i].out_name == *name {
            assert(used[i as int] == name@);
            return true;
        }
        i = i + 1;
    }
    let nd = on_disk.len();
    let mut j: usize = 0;
    while j < nd
        invariant
            nr == state.records@.len(),
            nd == on_disk@.len(),
            j <= nd,
            used == used_names(state.records@, views(on_disk@)),
            forall|q: int| 0 <= q < nr + j ==> used[q] != name@,
        decreases nd - j,
    {
        if on_disk[j] == *name {
            assert(used[nr + j] == name@);
            return true;
        }
        j = j + 1;
    }
    proof {
        if used.contains(name@) {
            let q = choose|q: int| 0 <= q < used.len() && used[q] == name@;
            assert(false);
        }
    }
    false
}

fn candidate_text(stem: &str, suffix: &str, k: u128) -> (s: String)
    ensures
        s@ == candidate(stem@, suffix@, k as nat),
{
    let mut s = String::from_str(stem);
    if k > 0 {
        proof {
            reveal_strlit(" (");
            reveal_strlit(")");
        }
        s.append(" (");
        push_decimal(&mut s, k);
        s.append(")");
    }
    s.append(suffix);
    s
}

/// The first of `stem` + `suffix`, `stem (1)` + `suffix`, `stem (2)` + `suffix`, ...
/// that is neither the output name of a recorded task nor among `on_disk`
/// (the names of the files in the output directory).
pub fn unique_name(state: &AppState, stem: &str, suffix: &str, on_disk: &Vec<String>) -> (name: String)
    ensures
        name@ == first_free_name(stem@, suffix@, used_names(state.records@, views(on_disk@))),
        !used_names(state.records@, views(on_disk@)).contains(name@),
{
    let ghost used = used_names(state.records@, views(on_disk@));
    let nr = state.records.len();
    let nd = on_disk.len();
    assert(nr + nd <= 2 * (usize::MAX as int));
    let mut k: u128 = 0;
    loop
        invariant
            state.records@.len() + on_disk@.len() <= 2 * (usize::MAX as int),
            used == used_names(state.records@, views(on_disk@)),
            used.len() == state.records@.len() + on_disk@.len(),
            k <= used.len(),
            forall|j: nat| j < k ==> used.contains(#[trigger] candidate(stem@, suffix@, j)),
        decreases used.len() - k,
    {
        let cand = candidate_text(stem, suffix, k);
        if !name_in_use(state, on_disk, &cand) {
            proof {
                lemma_first_free(stem@, suffix@, used, k as nat);
            }
            return cand;
        }
        proof {
            assert forall|j: nat| j < k + 1 implies used.contains(
                #[trigger] candidate(stem@, suffix@, j),
            ) by {
                if j < k {
                } else {
                    assert(j == k);
                }
            }
            lemma_candidates_bounded(stem@, suffix@, used, (k + 1) as nat);
        }
        k = k + 1;
    }
}

} // verus!
