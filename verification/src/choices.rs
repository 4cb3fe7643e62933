use vstd::prelude::*;
use crate::chars::{text_lt, chars_lt, lemma_text_lt_transitive, lemma_text_lt_irreflexive};
use crate::models::{InterestType, RunOn, ServerAccessType, ServerType, interest_type_desc, interest_type_desc_of,
    run_on_desc, server_access_type_desc, server_access_type_desc_of, server_type_desc, server_type_desc_of};
use crate::text::chars_of;

verus! {

/// The entries of a choice as seen in specifications: each value with its
/// description.
pub open spec fn entry_views<T>(v: Seq<(T, &'static str)>) -> Seq<(T, Seq<char>)> {
    Seq::new(v.len(), |i: int| (v[i].0, v[i].1@))
}

/// Entries whose descriptions never decrease (see `text_lt`).
pub open spec fn sorted_by_desc<T>(v: Seq<(T, Seq<char>)>) -> bool {
    forall|i: int, j: int| 0 <= i < j < v.len() ==> !text_lt(#[trigger] v[j].1, #[trigger] v[i].1)
}

/// Whether an entry has the given description.
pub open spec fn has_desc<T>(d: Seq<char>) -> spec_fn((T, Seq<char>)) -> bool {
    |e: (T, Seq<char>)| e.1 == d
}

/// The entries with the given description, in their order.
pub open spec fn with_desc<T>(v: Seq<(T, Seq<char>)>, d: Seq<char>) -> Seq<(T, Seq<char>)> {
    v.filter(has_desc::<T>(d))
}

proof fn lemma_insert_keeps_groups<T>(bv: Seq<(T, Seq<char>)>, k: int, xv: (T, Seq<char>), d: Seq<char>)
    requires
        0 <= k <= bv.len(),
        forall|m: int| k <= m < bv.len() ==> (#[trigger] bv[m]).1 != xv.1,
    ensures
        with_desc(bv.insert(k, xv), d) == if xv.1 == d { with_desc(bv, d).push(xv) } else { with_desc(bv, d) },
{
    let p = has_desc::<T>(d);
    let a = bv.take(k);
    let b = bv.skip(k);
    assert(bv.insert(k, xv) =~= a + seq![xv] + b);
    assert(bv =~= a + b);
    Seq::filter_distributes_over_add(a + seq![xv], b, p);
    Seq::filter_distributes_over_add(a, seq![xv], p);
    Seq::filter_distributes_over_add(a, b, p);
    assert(seq![xv] =~= Seq::<(T, Seq<char>)>::empty().push(xv));
    Seq::<(T, Seq<char>)>::empty().lemma_filter_push(xv, p);
    reveal(Seq::filter);
    assert(Seq::<(T, Seq<char>)>::empty().filter(p) =~= Seq::<(T, Seq<char>)>::empty());
    if xv.1 == d {
        assert forall|m: int| 0 <= m < b.len() implies !p(#[trigger] b[m]) by {
            assert(b[m] == bv[k + m]);
        }
        assert(b.all(|x: (T, Seq<char>)| !p(x)));
        b.lemma_all_neg_filter_empty(p);
        assert(b.filter(p) =~= Seq::<(T, Seq<char>)>::empty());
        assert(a.filter(p) + seq![xv] =~= a.filter(p).push(xv));
        assert(a.filter(p) + Seq::<(T, Seq<char>)>::empty() =~= a.filter(p));
    } else {
        assert(a.filter(p) + Seq::<(T, Seq<char>)>::empty() =~= a.filter(p));
    }
}

fn str_lt(a: &str, b: &str) -> (r: bool)
    ensures
        r == text_lt(a@, b@),
{
    let x = chars_of(a);
    let y = chars_of(b);
    chars_lt(&x, &y)
}

/// The entries sorted by their descriptions, as `sort_by_key` on the description
/// sorts them: stably, so that entries with equal descriptions keep their order
/// (the entries of each description come in the same order as before).
pub fn sort_by_desc<T: Copy>(entries: &Vec<(T, &'static str)>) -> (r: Vec<(T, &'static str)>)
    ensures
        sorted_by_desc(entry_views(r@)),
        entry_views(r@).to_multiset() == entry_views(entries@).to_multiset(),
        forall|d: Seq<char>| #[trigger] with_desc(entry_views(r@), d) == with_desc(entry_views(entries@), d),
{
    let mut r: Vec<(T, &'static str)> = Vec::new();
    let mut i: usize = 0;
    assert(entry_views(r@) =~= entry_views(entries@.take(0)));
    while i < entries.len()
        invariant
            i <= entries@.len(),
            sorted_by_desc(entry_views(r@)),
            entry_views(r@).to_multiset() == entry_views(entries@.take(i as int)).to_multiset(),
            forall|d: Seq<char>| #[trigger] with_desc(entry_views(r@), d) == with_desc(entry_views(entries@.take(i as int)), d),
        decreases entries@.len() - i,
    {
        let x = entries[i];
        let mut k: usize = 0;
        let mut stop = false;
        while k < r.len() && !stop
            invariant
                k <= r@.len(),
                forall|m: int| 0 <= m < k ==> !text_lt(x.1@, #[trigger] r@[m].1@),
                stop ==> k < r@.len() && text_lt(x.1@, r@[k as int].1@),
            decreases r@.len() - k, (if stop { 0int } else { 1int }),
        {
            if str_lt(x.1, r[k].1) {
                stop = true;
            } else {
                k = k + 1;
            }
        }
        let ghost before = r@;
        let ghost bv = entry_views(before);
        r.insert(k, x);
        assert(entry_views(r@) =~= bv.insert(k as int, (x.0, x.1@)));
        assert(entry_views(entries@.take(i + 1)) =~= entry_views(entries@.take(i as int)).push((x.0, x.1@)));
        proof {
            vstd::seq_lib::to_multiset_insert(bv, k as int, (x.0, x.1@));
            vstd::seq_lib::to_multiset_build(entry_views(entries@.take(i as int)), (x.0, x.1@));
        }
        assert(k < before.len() ==> text_lt(x.1@, bv[k as int].1));
        assert forall|m: int| k <= m < bv.len() implies (#[trigger] bv[m]).1 != x.1@ by {
            if m == k {
                lemma_text_lt_irreflexive(x.1@);
            } else {
                assert(!text_lt(bv[m].1, bv[k as int].1));
            }
        }
        assert forall|d: Seq<char>| #[trigger] with_desc(entry_views(r@), d) == with_desc(entry_views(entries@.take(i + 1)), d) by {
            lemma_insert_keeps_groups(bv, k as int, (x.0, x.1@), d);
            Seq::lemma_filter_push(entry_views(entries@.take(i as int)), (x.0, x.1@), has_desc::<T>(d));
        }
        assert forall|a: int, b: int| 0 <= a < b < r@.len() implies
            !text_lt(#[trigger] entry_views(r@)[b].1, #[trigger] entry_views(r@)[a].1) by {
            let rv = entry_views(r@);
            if b < k {
                assert(rv[a] == bv[a] && rv[b] == bv[b]);
            } else if b == k {
                assert(rv[a] == bv[a]);
                assert(!text_lt(x.1@, before[a].1@));
            } else if a == k {
                assert(rv[b] == bv[b - 1]);
                if text_lt(bv[b - 1].1, x.1@) {
                    assert(text_lt(x.1@, bv[k as int].1));
                    lemma_text_lt_transitive(bv[b - 1].1, x.1@, bv[k as int].1);
                    if b - 1 > k {
                        assert(!text_lt(bv[b - 1].1, bv[k as int].1));
                    } else {
                        lemma_text_lt_irreflexive(bv[k as int].1);
                    }
                }
            } else if a < k {
                assert(rv[a] == bv[a] && rv[b] == bv[b - 1]);
            } else {
                assert(rv[a] == bv[a - 1] && rv[b] == bv[b - 1]);
            }
        }
        i = i + 1;
    }
    assert(entries@.take(entries@.len() as int) =~= entries@);
    r
}

/// The server types with their descriptions, in the order of their declaration.
pub open spec fn server_type_choices() -> Seq<(ServerType, Seq<char>)> {
    seq![
        (ServerType::SrvDatabase, server_type_desc_of(ServerType::SrvDatabase)),
        (ServerType::SrvApplication, server_type_desc_of(ServerType::SrvApplication)),
        (ServerType::SrvHttpOrProxy, server_type_desc_of(ServerType::SrvHttpOrProxy)),
        (ServerType::SrvMonitoring, server_type_desc_of(ServerType::SrvMonitoring)),
        (ServerType::SrvReporting, server_type_desc_of(ServerType::SrvReporting)),
    ]
}

/// The choices of a server type that the server dialog offers: each type with its
/// description, sorted by description.
pub fn server_type_entries() -> (r: Vec<(ServerType, &'static str)>)
    ensures
        sorted_by_desc(entry_views(r@)),
        entry_views(r@).to_multiset() == server_type_choices().to_multiset(),
{
    let entries = vec![
        (ServerType::SrvDatabase, server_type_desc(ServerType::SrvDatabase)),
        (ServerType::SrvApplication, server_type_desc(ServerType::SrvApplication)),
        (ServerType::SrvHttpOrProxy, server_type_desc(ServerType::SrvHttpOrProxy)),
        (ServerType::SrvMonitoring, server_type_desc(ServerType::SrvMonitoring)),
        (ServerType::SrvReporting, server_type_desc(ServerType::SrvReporting)),
    ];
    assert(entry_views(entries@) =~= server_type_choices());
    sort_by_desc(&entries)
}

/// The access types with their descriptions, in the order of their declaration.
pub open spec fn access_type_choices() -> Seq<(ServerAccessType, Seq<char>)> {
    seq![
        (ServerAccessType::SrvAccessSsh, server_access_type_desc_of(ServerAccessType::SrvAccessSsh)),
        (ServerAccessType::SrvAccessRdp, server_access_type_desc_of(ServerAccessType::SrvAccessRdp)),
        (ServerAccessType::SrvAccessWww, server_access_type_desc_of(ServerAccessType::SrvAccessWww)),
        (ServerAccessType::SrvAccessSshTunnel, server_access_type_desc_of(ServerAccessType::SrvAccessSshTunnel)),
    ]
}

/// The choices of an access type that the server dialog offers, sorted by
/// description.
pub fn server_access_type_entries() -> (r: Vec<(ServerAccessType, &'static str)>)
    ensures
        sorted_by_desc(entry_views(r@)),
        entry_views(r@).to_multiset() == access_type_choices().to_multiset(),
{
    let entries = vec![
        (ServerAccessType::SrvAccessSsh, server_access_type_desc(ServerAccessType::SrvAccessSsh)),
        (ServerAccessType::SrvAccessRdp, server_access_type_desc(ServerAccessType::SrvAccessRdp)),
        (ServerAccessType::SrvAccessWww, server_access_type_desc(ServerAccessType::SrvAccessWww)),
        (ServerAccessType::SrvAccessSshTunnel, server_access_type_desc(ServerAccessType::SrvAccessSshTunnel)),
    ];
    assert(entry_views(entries@) =~= access_type_choices());
    sort_by_desc(&entries)
}

/// The kinds of point of interest with their descriptions, in the order of their
/// declaration.
pub open spec fn interest_type_choices() -> Seq<(InterestType, Seq<char>)> {
    seq![
        (InterestType::PoiApplication, interest_type_desc_of(InterestType::PoiApplication)),
        (InterestType::PoiLogFile, interest_type_desc_of(InterestType::PoiLogFile)),
        (InterestType::PoiConfigFile, interest_type_desc_of(InterestType::PoiConfigFile)),
        (InterestType::PoiCommandToRun, interest_type_desc_of(InterestType::PoiCommandToRun)),
        (InterestType::PoiBackupArchive, interest_type_desc_of(InterestType::PoiBackupArchive)),
        (InterestType::PoiCommandTerminal, interest_type_desc_of(InterestType::PoiCommandTerminal)),
    ]
}

/// The choices of a kind of point of interest that its dialog offers, sorted by
/// description.
pub fn interest_type_entries() -> (r: Vec<(InterestType, &'static str)>)
    ensures
        sorted_by_desc(entry_views(r@)),
        entry_views(r@).to_multiset() == interest_type_choices().to_multiset(),
{
    let entries = vec![
        (InterestType::PoiApplication, interest_type_desc(InterestType::PoiApplication)),
        (InterestType::PoiLogFile, interest_type_desc(InterestType::PoiLogFile)),
        (InterestType::PoiConfigFile, interest_type_desc(InterestType::PoiConfigFile)),
        (InterestType::PoiCommandToRun, interest_type_desc(InterestType::PoiCommandToRun)),
        (InterestType::PoiBackupArchive, interest_type_desc(InterestType::PoiBackupArchive)),
        (InterestType::PoiCommandTerminal, interest_type_desc(InterestType::PoiCommandTerminal)),
    ];
    assert(entry_views(entries@) =~= interest_type_choices());
    sort_by_desc(&entries)
}

/// Where a command can run, with the descriptions, in the order of declaration.
pub open spec fn run_on_choices() -> Seq<(RunOn, Seq<char>)> {
    seq![(RunOn::RunOnClient, "Client"@), (RunOn::RunOnServer, "Server"@)]
}

/// The choices of where a command runs that the dialog offers, sorted by
/// description.
pub fn run_on_entries() -> (r: Vec<(RunOn, &'static str)>)
    ensures
        sorted_by_desc(entry_views(r@)),
        entry_views(r@).to_multiset() == run_on_choices().to_multiset(),
{
    let entries = vec![(RunOn::RunOnClient, run_on_desc(RunOn::RunOnClient)), (RunOn::RunOnServer, run_on_desc(RunOn::RunOnServer))];
    assert(entry_views(entries@) =~= run_on_choices());
    sort_by_desc(&entries)
}

} // verus!
