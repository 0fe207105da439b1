//! Slug allocation: `slugify` turns arbitrary text into a lower-case
//! ASCII identifier, and `unique_slug` disambiguates repeated bases with
//! numeric suffixes so that no two links of one build share a slug.

use vstd::prelude::*;

use crate::strutil::{
    contains_string, dec_spec, is_lower_alnum, is_lower_alnum_char, lemma_dec_injective,
    lemma_dec_len_ge_one, lower_char, push_char, to_lower_char, uint_to_string,
};

verus! {

// ---------------------------------------------------------------------------
// slugify
// ---------------------------------------------------------------------------

/// The pass of `slugify` over the characters of `s`, before trailing
/// dashes are stripped: ASCII-lowered alphanumerics are kept, and any
/// other character becomes a single `-`, never at the start and never
/// next to another `-`.
pub open spec fn slug_acc(s: Seq<char>) -> Seq<char>
    decreases s.len(),
{
    if s.len() == 0 {
        Seq::<char>::empty()
    } else {
        let a = slug_acc(s.drop_last());
        let c = lower_char(s.last());
        if is_lower_alnum(c) {
            a.push(c)
        } else if a.len() > 0 && a.last() != '-' {
            a.push('-')
        } else {
            a
        }
    }
}

/// Removes every trailing `-`.
pub open spec fn strip_dashes(s: Seq<char>) -> Seq<char>
    decreases s.len(),
{
    if s.len() > 0 && s.last() == '-' {
        strip_dashes(s.drop_last())
    } else {
        s
    }
}

/// What `slugify` returns: the folded characters without trailing
/// dashes, or the literal `link` when nothing is left.
pub open spec fn slug_spec(s: Seq<char>) -> Seq<char> {
    let t = strip_dashes(slug_acc(s));
    if t.len() == 0 {
        "link"@
    } else {
        t
    }
}

/// Lower-cases, keeps ASCII alphanumerics, collapses every run of other
/// characters into one `-`, strips trailing dashes, and falls back to
/// `link` when the result would be empty.
pub fn slugify(input: &str) -> (r: String)
    ensures
        r@ == slug_spec(input@),
        r@.len() > 0,
{
    let n = input.unicode_len();
    let mut acc: Vec<char> = Vec::new();
    let mut i: usize = 0;
    while i < n
        invariant
            n == input@.len(),
            i <= n,
            acc@ == slug_acc(input@.subrange(0, i as int)),
        decreases n - i,
    {
        proof {
            assert(input@.subrange(0, i + 1).drop_last() =~= input@.subrange(0, i as int));
            assert(input@.subrange(0, i + 1).last() == input@[i as int]);
        }
        let c = to_lower_char(input.get_char(i));
        if is_lower_alnum_char(c) {
            acc.push(c);
        } else if acc.len() > 0 && acc[acc.len() - 1] != '-' {
            acc.push('-');
        }
        i = i + 1;
    }
    assert(input@.subrange(0, n as int) =~= input@);
    while acc.len() > 0 && acc[acc.len() - 1] == '-'
        invariant
            strip_dashes(acc@) == strip_dashes(slug_acc(input@)),
        decreases acc.len(),
    {
        acc.pop();
    }
    assert(acc@ == strip_dashes(slug_acc(input@)));
    if acc.len() == 0 {
        let r = "link".to_owned();
        proof {
            reveal_strlit("link");
        }
        r
    } else {
        let mut out = String::new();
        let mut j: usize = 0;
        while j < acc.len()
            invariant
                j <= acc@.len(),
                out@ == acc@.subrange(0, j as int),
                acc@ == strip_dashes(slug_acc(input@)),
        decreases acc.len() - j,
        {
            push_char(&mut out, acc[j]);
            j = j + 1;
            assert(out@ =~= acc@.subrange(0, j as int));
        }
        assert(out@ =~= acc@);
        out
    }
}

// ---------------------------------------------------------------------------
// The shape of slugify's output, and idempotence
// ---------------------------------------------------------------------------

/// Every character is a lower-case ASCII alphanumeric or `-`, the first
/// character is not `-`, and no two dashes are adjacent.
pub open spec fn slug_shaped(t: Seq<char>) -> bool {
    &&& forall|i: int| 0 <= i < t.len() ==> is_lower_alnum(#[trigger] t[i]) || t[i] == '-'
    &&& t.len() > 0 ==> t[0] != '-'
    &&& forall|i: int| 0 <= i < t.len() - 1 ==> !(#[trigger] t[i] == '-' && t[i + 1] == '-')
}

proof fn lemma_slug_acc_shaped(s: Seq<char>)
    ensures
        slug_shaped(slug_acc(s)),
    decreases s.len(),
{
    if s.len() > 0 {
        lemma_slug_acc_shaped(s.drop_last());
    }
}

proof fn lemma_strip_dashes_shaped(t: Seq<char>)
    requires
        slug_shaped(t),
    ensures
        slug_shaped(strip_dashes(t)),
        strip_dashes(t).len() > 0 ==> strip_dashes(t).last() != '-',
    decreases t.len(),
{
    if t.len() > 0 && t.last() == '-' {
        let u = t.drop_last();
        assert(forall|i: int| 0 <= i < u.len() ==> is_lower_alnum(#[trigger] u[i]) || u[i] == '-');
        lemma_strip_dashes_shaped(u);
    }
}

/// A slug-shaped string passes through the folding pass unchanged.
proof fn lemma_slug_acc_fixed(t: Seq<char>)
    requires
        slug_shaped(t),
    ensures
        slug_acc(t) == t,
    decreases t.len(),
{
    if t.len() > 0 {
        let u = t.drop_last();
        let c = t.last();
        assert(slug_shaped(u));
        lemma_slug_acc_fixed(u);
        if is_lower_alnum(c) {
            assert(lower_char(c) == c);
            assert(u.push(c) =~= t);
        } else {
            assert(c == '-');
            assert(t[0] != '-');
            assert(t.len() >= 2);
            assert(u.last() == t[t.len() - 2]);
            assert(!(t[t.len() - 2] == '-' && t[t.len() - 1] == '-'));
            assert(u.len() > 0 && u.last() != '-');
            assert(lower_char('-') == '-' && !is_lower_alnum('-'));
            assert(u.push('-') =~= t);
        }
    }
}

proof fn lemma_strip_dashes_fixed(t: Seq<char>)
    requires
        t.len() > 0 ==> t.last() != '-',
    ensures
        strip_dashes(t) == t,
{
}

/// Slugify is idempotent: running it on its own output changes nothing.
pub proof fn lemma_slugify_idempotent(s: Seq<char>)
    ensures
        slug_spec(slug_spec(s)) == slug_spec(s),
{
    let t = strip_dashes(slug_acc(s));
    lemma_slug_acc_shaped(s);
    lemma_strip_dashes_shaped(slug_acc(s));
    if t.len() == 0 {
        reveal_strlit("link");
        let l = "link"@;
        assert(l.len() == 4);
        assert(is_lower_alnum(l[0]) && is_lower_alnum(l[1]) && is_lower_alnum(l[2])
            && is_lower_alnum(l[3]));
        assert(slug_shaped(l));
        lemma_slug_acc_fixed(l);
        lemma_strip_dashes_fixed(l);
        assert(slug_spec(l) == l);
    } else {
        lemma_slug_acc_fixed(t);
        lemma_strip_dashes_fixed(t);
        assert(slug_spec(t) == t);
    }
}

// ---------------------------------------------------------------------------
// unique_slug
// ---------------------------------------------------------------------------

/// `base` with the numeric suffix `k`: `base-k`.
pub open spec fn suffixed(base: Seq<char>, k: nat) -> Seq<char> {
    base + "-"@ + dec_spec(k)
}

/// The smallest suffix from 2 on whose suffixed form is still free.
pub open spec fn first_free_suffix(base: Seq<char>, used: Seq<Seq<char>>) -> nat {
    choose|k: nat|
        k >= 2 && !used.contains(suffixed(base, k)) && (forall|j: nat|
            2 <= j < k ==> used.contains(suffixed(base, j)))
}

/// What `unique_slug` returns: `base` itself when free, else the first
/// free numeric variant `base-2`, `base-3`, and so on.
pub open spec fn unique_slug_spec(base: Seq<char>, used: Seq<Seq<char>>) -> Seq<char> {
    if !used.contains(base) {
        base
    } else {
        suffixed(base, first_free_suffix(base, used))
    }
}

pub proof fn lemma_suffixed_ne_base(base: Seq<char>, k: nat)
    ensures
        suffixed(base, k) != base,
{
    reveal_strlit("-");
    lemma_dec_len_ge_one(k);
    assert(suffixed(base, k).len() > base.len());
}

pub proof fn lemma_suffixed_injective(base: Seq<char>, k1: nat, k2: nat)
    requires
        suffixed(base, k1) == suffixed(base, k2),
    ensures
        k1 == k2,
{
    let s = suffixed(base, k1);
    let m = base.len() + "-"@.len();
    assert(dec_spec(k1) =~= s.subrange(m as int, s.len() as int));
    assert(dec_spec(k2) =~= s.subrange(m as int, s.len() as int));
    lemma_dec_injective(k1, k2);
}

proof fn lemma_first_free_pinned(base: Seq<char>, used: Seq<Seq<char>>, k: nat)
    requires
        k >= 2,
        !used.contains(suffixed(base, k)),
        forall|j: nat| 2 <= j < k ==> used.contains(suffixed(base, j)),
    ensures
        first_free_suffix(base, used) == k,
{
    let p = |q: nat|
        q >= 2 && !used.contains(suffixed(base, q)) && (forall|j: nat|
            2 <= j < q ==> used.contains(suffixed(base, j)));
    assert(p(k));
    let c = choose|q: nat| #[trigger] p(q);
    assert(p(c));
    if c < k {
        assert(used.contains(suffixed(base, c)));
    } else if c > k {
        assert(used.contains(suffixed(base, k)));
    }
}

/// Returns `base` when it is not yet in `used`, else probes `base-2`,
/// `base-3`, ... for the first free variant; the winner is recorded
/// into `used` and never collides with an entry already there.
pub fn unique_slug(base: &str, used: &mut Vec<String>) -> (slug: String)
    ensures
        slug@ == unique_slug_spec(base@, old(used).deep_view()),
        !old(used).deep_view().contains(slug@),
        final(used).deep_view() == old(used).deep_view().push(slug@),
{
    let base_string = base.to_owned();
    if !contains_string(used, &base_string) {
        let ghost uv0 = old(used).deep_view();
        used.push(base_string);
        let r = base.to_owned();
        assert(used.deep_view() =~= uv0.push(r@));
        return r;
    }
    let ghost uv = used.deep_view();
    let n = used.len();
    let ghost tried: Set<Seq<char>> = Set::<Seq<char>>::empty().insert(base@);
    let mut k: u128 = 2;
    proof {
        assert(tried.len() == 1) by {
            assert(Set::<Seq<char>>::empty().insert(base@).len() == 1);
        };
        assert(tried.subset_of(uv.to_set()));
    }
    loop
        invariant
            uv == used.deep_view(),
            uv == old(used).deep_view(),
            uv.len() == n,
            uv.contains(base@),
            2 <= k,
            tried.finite(),
            tried.len() == k - 1,
            tried.subset_of(uv.to_set()),
            tried.contains(base@),
            forall|j: nat| 2 <= j < k ==> tried.contains(suffixed(base@, j)),
            forall|j: nat| 2 <= j < k ==> uv.contains(suffixed(base@, j)),
            forall|x: Seq<char>| #[trigger]
                tried.contains(x) ==> x == base@ || (exists|j: nat|
                    2 <= j < k && x == suffixed(base@, j)),
        decreases uv.len() + 2 - k,
    {
        proof {
            vstd::seq_lib::seq_to_set_is_finite(uv);
            uv.lemma_cardinality_of_set();
            vstd::set_lib::lemma_len_subset(tried, uv.to_set());
            assert(k - 1 <= uv.len());
            assert(k <= n + 1);
        }
        let mut candidate = base.to_owned();
        candidate.append("-");
        let ks = uint_to_string(k);
        candidate.append(ks.as_str());
        proof {
            assert(candidate@ == suffixed(base@, k as nat));
        }
        if !contains_string(used, &candidate) {
            proof {
                lemma_first_free_pinned(base@, uv, k as nat);
            }
            used.push(candidate.clone());
            assert(used.deep_view() =~= uv.push(candidate@));
            assert(!uv.contains(candidate@));
            return candidate;
        }
        proof {
            assert(!tried.contains(suffixed(base@, k as nat))) by {
                if tried.contains(suffixed(base@, k as nat)) {
                    lemma_suffixed_ne_base(base@, k as nat);
                    let j = choose|j: nat| 2 <= j < k && suffixed(base@, k as nat) == suffixed(
                        base@,
                        j,
                    );
                    assert(suffixed(base@, k as nat) == suffixed(base@, j));
                    lemma_suffixed_injective(base@, j, k as nat);
                }
            };
            tried = tried.insert(suffixed(base@, k as nat));
            assert(tried.len() == k) by {
                assert(tried.len() == (k - 1) + 1);
            };
        }
        k = k + 1;
    }
}

// ---------------------------------------------------------------------------
// The allocated slug is always fresh
// ---------------------------------------------------------------------------

/// The first free suffix from `k` on; meaningful while `k` stays within
/// the pigeonhole bound, which the search never leaves when every
/// suffix below `k` is taken.
spec fn search_free(base: Seq<char>, used: Seq<Seq<char>>, k: nat) -> nat
    decreases used.len() + 3 - k,
        when k <= used.len() + 2
{
    if !used.contains(suffixed(base, k)) {
        k
    } else {
        search_free(base, used, k + 1)
    }
}

/// When the suffixes 2..k are all taken, the used list holds at least
/// k - 2 distinct suffixed values.
proof fn lemma_suffixed_card(base: Seq<char>, used: Seq<Seq<char>>, k: nat)
    requires
        2 <= k,
        forall|j: nat| 2 <= j < k ==> used.contains(#[trigger] suffixed(base, j)),
    ensures
        k - 2 <= used.to_set().len(),
{
    vstd::seq_lib::seq_to_set_is_finite(used);
    used.lemma_cardinality_of_set();
    if k > 2 {
        let taken = Set::new(
            |x: Seq<char>| exists|j: nat| 2 <= j < k && x == #[trigger] suffixed(base, j),
        );
        assert(taken_card(base, k) == taken.len()) by {
            taken_card_holds(base, k);
        };
        assert(taken.subset_of(used.to_set())) by {
            assert forall|x: Seq<char>| taken.contains(x) implies used.to_set().contains(x) by {
                let j = choose|j: nat| 2 <= j < k && x == #[trigger] suffixed(base, j);
                assert(used.contains(suffixed(base, j)));
            };
        };
        vstd::set_lib::lemma_len_subset(taken, used.to_set());
    }
}

/// The cardinality of the set of suffixed values below `k`.
spec fn taken_card(base: Seq<char>, k: nat) -> nat {
    if k <= 2 {
        0
    } else {
        (k - 2) as nat
    }
}

proof fn taken_card_holds(base: Seq<char>, k: nat)
    requires
        2 <= k,
    ensures
        Set::new(
            |x: Seq<char>| exists|j: nat| 2 <= j < k && x == #[trigger] suffixed(base, j),
        ).len() == taken_card(base, k),
        Set::new(
            |x: Seq<char>| exists|j: nat| 2 <= j < k && x == #[trigger] suffixed(base, j),
        ).finite(),
    decreases k,
{
    let taken = Set::new(
        |x: Seq<char>| exists|j: nat| 2 <= j < k && x == #[trigger] suffixed(base, j),
    );
    if k == 2 {
        assert(taken =~= Set::<Seq<char>>::empty());
    } else {
        taken_card_holds(base, (k - 1) as nat);
        let prev = Set::new(
            |x: Seq<char>| exists|j: nat| 2 <= j < k - 1 && x == #[trigger] suffixed(base, j),
        );
        assert(taken =~= prev.insert(suffixed(base, (k - 1) as nat))) by {
            assert forall|x: Seq<char>|
                taken.contains(x) == prev.insert(suffixed(base, (k - 1) as nat)).contains(x) by {
                if taken.contains(x) {
                    let j = choose|j: nat| 2 <= j < k && x == #[trigger] suffixed(base, j);
                    if j < k - 1 {
                        assert(prev.contains(x));
                    } else {
                        assert(x == suffixed(base, (k - 1) as nat));
                    }
                }
                if prev.contains(x) {
                    let j = choose|j: nat| 2 <= j < k - 1 && x == #[trigger] suffixed(base, j);
                    assert(taken.contains(x));
                }
                if x == suffixed(base, (k - 1) as nat) {
                    assert(taken.contains(x));
                }
            };
        };
        assert(!prev.contains(suffixed(base, (k - 1) as nat))) by {
            if prev.contains(suffixed(base, (k - 1) as nat)) {
                let j = choose|j: nat|
                    2 <= j < k - 1 && suffixed(base, (k - 1) as nat) == #[trigger] suffixed(
                        base,
                        j,
                    );
                lemma_suffixed_injective(base, j, (k - 1) as nat);
            }
        };
    }
}

/// The search finds the first free suffix: every suffix below it is
/// taken and the found one is not.
proof fn lemma_search_free(base: Seq<char>, used: Seq<Seq<char>>, k: nat)
    requires
        2 <= k <= used.len() + 2,
        forall|j: nat| 2 <= j < k ==> used.contains(#[trigger] suffixed(base, j)),
    ensures
        search_free(base, used, k) >= k,
        !used.contains(suffixed(base, search_free(base, used, k))),
        forall|j: nat|
            k <= j < search_free(base, used, k) ==> used.contains(#[trigger] suffixed(base, j)),
    decreases used.len() + 3 - k,
{
    if used.contains(suffixed(base, k)) {
        lemma_suffixed_card(base, used, k + 1);
        vstd::seq_lib::seq_to_set_is_finite(used);
        used.lemma_cardinality_of_set();
        assert(k + 1 <= used.len() + 2);
        lemma_search_free(base, used, k + 1);
    }
}

/// Whatever slugs are already taken, the allocated slug is none of them.
pub proof fn lemma_unique_slug_fresh(base: Seq<char>, used: Seq<Seq<char>>)
    ensures
        !used.contains(unique_slug_spec(base, used)),
{
    if used.contains(base) {
        lemma_search_free(base, used, 2);
        let r = search_free(base, used, 2);
        lemma_first_free_pinned(base, used, r);
        assert(unique_slug_spec(base, used) == suffixed(base, r));
    }
}

} // verus!
