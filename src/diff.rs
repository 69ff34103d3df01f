use vstd::prelude::*;

verus! {

/// A maximal run of consecutive addresses whose bytes changed, with their new values.
#[derive(Debug)]
pub struct DiffRun {
    pub start: usize,
    pub bytes: Vec<u8>,
}

/// Address `a` holds a different byte after the run than before it.
pub open spec fn differs(after: Seq<u8>, before: Seq<u8>, a: int) -> bool {
    after[a] != before[a]
}

/// One past the last address of a run.
pub open spec fn run_end(r: DiffRun) -> int {
    r.start + r.bytes@.len()
}

/// Run `r` lists address `a`.
pub open spec fn covers(r: DiffRun, a: int) -> bool {
    r.start <= a < run_end(r)
}

/// A run holds only changed addresses, with their new bytes, and can grow on neither side.
pub open spec fn run_ok(r: DiffRun, after: Seq<u8>, before: Seq<u8>) -> bool {
    &&& r.bytes@.len() > 0
    &&& run_end(r) <= after.len()
    &&& forall|a: int| r.start <= a < run_end(r) ==> #[trigger] differs(after, before, a)
    &&& forall|j: int| 0 <= j < r.bytes@.len() ==> (#[trigger] r.bytes@[j]) == after[r.start + j]
    &&& (r.start == 0 || !differs(after, before, r.start - 1))
    &&& (run_end(r) == after.len() || !differs(after, before, run_end(r)))
}

/// `runs` is the sparse difference between two images: maximal runs of changed addresses, in
/// ascending order, which together list every changed address.
pub open spec fn is_memory_diff(runs: Seq<DiffRun>, after: Seq<u8>, before: Seq<u8>) -> bool {
    &&& forall|k: int| 0 <= k < runs.len() ==> run_ok(#[trigger] runs[k], after, before)
    &&& forall|k: int, l: int|
        0 <= k < l < runs.len() ==> run_end(#[trigger] runs[k]) < (#[trigger] runs[l]).start
    &&& forall|a: int|
        0 <= a < after.len() && #[trigger] differs(after, before, a) ==> exists|k: int|
            0 <= k < runs.len() && covers(#[trigger] runs[k], a)
}

/// Compares two images address by address and returns the runs of changed bytes.
pub fn memory_diff(after: &[u8], before: &[u8]) -> (runs: Vec<DiffRun>)
    requires
        after@.len() == before@.len(),
    ensures
        is_memory_diff(runs@, after@, before@),
{
    let n = after.len();
    let mut runs: Vec<DiffRun> = Vec::new();
    let mut in_run = false;
    let mut cur_start: usize = 0;
    let mut cur: Vec<u8> = Vec::new();
    let mut i: usize = 0;
    while i < n
        invariant
            n == after@.len(),
            n == before@.len(),
            i <= n,
            forall|k: int|
                0 <= k < runs@.len() ==> run_ok(#[trigger] runs@[k], after@, before@) && run_end(
                    runs@[k],
                ) < i,
            forall|k: int, l: int|
                0 <= k < l < runs@.len() ==> run_end(#[trigger] runs@[k]) < (
                #[trigger] runs@[l]).start,
            in_run ==> {
                &&& cur@.len() > 0
                &&& cur_start + cur@.len() == i
                &&& forall|a: int| cur_start <= a < i ==> #[trigger] differs(after@, before@, a)
                &&& forall|j: int| 0 <= j < cur@.len() ==> (#[trigger] cur@[j]) == after@[cur_start + j]
                &&& (cur_start == 0 || !differs(after@, before@, cur_start - 1))
                &&& forall|k: int| 0 <= k < runs@.len() ==> run_end(#[trigger] runs@[k]) < cur_start
            },
            !in_run ==> cur@.len() == 0 && (i == 0 || !differs(after@, before@, i - 1)),
            forall|a: int|
                0 <= a < i && #[trigger] differs(after@, before@, a) ==> (exists|k: int|
                    0 <= k < runs@.len() && covers(#[trigger] runs@[k], a)) || (in_run && cur_start
                    <= a),
        decreases n - i,
    {
        if after[i] != before[i] {
            if !in_run {
                in_run = true;
                cur_start = i;
                assert forall|k: int| 0 <= k < runs@.len() implies run_end(
                    #[trigger] runs@[k],
                ) < cur_start by {
                    assert(run_end(runs@[k]) < i);
                }
            }
            let ghost old_cur = cur@;
            cur.push(after[i]);
            assert forall|j: int| 0 <= j < cur@.len() implies (#[trigger] cur@[j]) == after@[cur_start
                + j] by {
                if j < old_cur.len() {
                    assert(cur@[j] == old_cur[j]);
                }
            }
        } else if in_run {
            let ghost cv = cur@;
            let run = DiffRun { start: cur_start, bytes: cur };
            assert(run.bytes@ == cv);
            assert forall|j: int| 0 <= j < run.bytes@.len() implies (#[trigger] run.bytes@[j])
                == after@[run.start + j] by {
                assert(cv[j] == after@[cur_start + j]);
            }
            assert(run_ok(run, after@, before@));
            let ghost old_runs = runs@;
            runs.push(run);
            proof {
                assert(runs@[old_runs.len() as int] == run);
                assert forall|k: int|
                    0 <= k < runs@.len() implies run_ok(#[trigger] runs@[k], after@, before@)
                    && run_end(runs@[k]) < i + 1 by {
                    if k < old_runs.len() {
                        assert(runs@[k] == old_runs[k]);
                    }
                }
                assert forall|k: int, l: int|
                    0 <= k < l < runs@.len() implies run_end(#[trigger] runs@[k]) < (
                    #[trigger] runs@[l]).start by {
                    assert(runs@[k] == old_runs[k]);
                    if l < old_runs.len() {
                        assert(runs@[l] == old_runs[l]);
                    }
                }
                assert forall|a: int|
                    0 <= a < i + 1 && #[trigger] differs(after@, before@, a) implies exists|k: int|
                    0 <= k < runs@.len() && covers(#[trigger] runs@[k], a) by {
                    if cur_start <= a {
                        assert(covers(runs@[old_runs.len() as int], a));
                    } else {
                        let k = choose|k: int| 0 <= k < old_runs.len() && covers(old_runs[k], a);
                        assert(runs@[k] == old_runs[k]);
                    }
                }
            }
            in_run = false;
            cur = Vec::new();
        }
        i = i + 1;
    }
    if in_run {
        let ghost cv = cur@;
        let run = DiffRun { start: cur_start, bytes: cur };
        assert(run.bytes@ == cv);
        assert forall|j: int| 0 <= j < run.bytes@.len() implies (#[trigger] run.bytes@[j])
            == after@[run.start + j] by {
            assert(cv[j] == after@[cur_start + j]);
        }
        assert(run_ok(run, after@, before@));
        let ghost old_runs = runs@;
        runs.push(run);
        proof {
            assert(runs@[old_runs.len() as int] == run);
            assert forall|k: int|
                0 <= k < runs@.len() implies run_ok(#[trigger] runs@[k], after@, before@) by {
                if k < old_runs.len() {
                    assert(runs@[k] == old_runs[k]);
                }
            }
            assert forall|k: int, l: int|
                0 <= k < l < runs@.len() implies run_end(#[trigger] runs@[k]) < (
                #[trigger] runs@[l]).start by {
                assert(runs@[k] == old_runs[k]);
                if l < old_runs.len() {
                    assert(runs@[l] == old_runs[l]);
                }
            }
            assert forall|a: int|
                0 <= a < n && #[trigger] differs(after@, before@, a) implies exists|k: int|
                0 <= k < runs@.len() && covers(#[trigger] runs@[k], a) by {
                if cur_start <= a {
                    assert(covers(runs@[old_runs.len() as int], a));
                } else {
                    let k = choose|k: int| 0 <= k < old_runs.len() && covers(old_runs[k], a);
                    assert(runs@[k] == old_runs[k]);
                }
            }
        }
    }
    runs
}

/// In a memory diff an address is listed iff its byte changed, and then in exactly one run,
/// with its new value.
pub proof fn lemma_diff_lists_each_change_once(
    runs: Seq<DiffRun>,
    after: Seq<u8>,
    before: Seq<u8>,
    a: int,
)
    requires
        is_memory_diff(runs, after, before),
        after.len() == before.len(),
        0 <= a < after.len(),
    ensures
        differs(after, before, a) <==> exists|k: int| 0 <= k < runs.len() && covers(#[trigger] runs[k], a),
        forall|k: int|
            0 <= k < runs.len() && covers(#[trigger] runs[k], a) ==> runs[k].bytes@[a - runs[k].start]
                == after[a],
        forall|k: int, l: int|
            0 <= k < runs.len() && 0 <= l < runs.len() && covers(#[trigger] runs[k], a) && covers(
                #[trigger] runs[l],
                a,
            ) ==> k == l,
{
    if exists|k: int| 0 <= k < runs.len() && covers(#[trigger] runs[k], a) {
        let k = choose|k: int| 0 <= k < runs.len() && covers(#[trigger] runs[k], a);
        assert(run_ok(runs[k], after, before));
        assert(differs(after, before, a));
    }
    assert forall|k: int|
        0 <= k < runs.len() && covers(#[trigger] runs[k], a) implies runs[k].bytes@[a
        - runs[k].start] == after[a] by {
        assert(run_ok(runs[k], after, before));
        assert(differs(after, before, a));
    }
    assert forall|k: int, l: int|
        0 <= k < runs.len() && 0 <= l < runs.len() && covers(#[trigger] runs[k], a) && covers(
            #[trigger] runs[l],
            a,
        ) implies k == l by {
        if k < l {
            assert(run_end(runs[k]) < runs[l].start);
        } else if l < k {
            assert(run_end(runs[l]) < runs[k].start);
        }
    }
}

/// A run of a memory diff that lists a run start of the other diff starts there too.
proof fn lemma_start_matches(
    runs: Seq<DiffRun>,
    after: Seq<u8>,
    before: Seq<u8>,
    s: int,
) -> (l: int)
    requires
        is_memory_diff(runs, after, before),
        0 <= s < after.len(),
        differs(after, before, s),
        s == 0 || !differs(after, before, s - 1),
    ensures
        0 <= l < runs.len(),
        runs[l].start == s,
{
    let l = choose|l: int| 0 <= l < runs.len() && covers(#[trigger] runs[l], s);
    assert(run_ok(runs[l], after, before));
    if runs[l].start < s {
        assert(differs(after, before, s - 1));
    }
    l
}

/// The first `k` runs of two memory diffs of the same images agree.
proof fn lemma_runs_agree(
    r1: Seq<DiffRun>,
    r2: Seq<DiffRun>,
    after: Seq<u8>,
    before: Seq<u8>,
    n: int,
)
    requires
        is_memory_diff(r1, after, before),
        is_memory_diff(r2, after, before),
        0 <= n <= r1.len(),
        n <= r2.len(),
    ensures
        forall|j: int|
            0 <= j < n ==> (#[trigger] r1[j]).start == r2[j].start && r1[j].bytes@ == r2[j].bytes@,
    decreases n,
{
    if n > 0 {
        let k = n - 1;
        lemma_runs_agree(r1, r2, after, before, k);
        assert(run_ok(r1[k], after, before));
        assert(run_ok(r2[k], after, before));
        let l = lemma_start_matches(r2, after, before, r1[k].start as int);
        let m = lemma_start_matches(r1, after, before, r2[k].start as int);
        if l < k {
            assert(r1[l].start == r2[l].start);
            assert(run_end(r1[l]) < r1[k].start);
        }
        if m < k {
            assert(r1[m].start == r2[m].start);
            assert(run_end(r2[m]) < r2[k].start);
        }
        if l > k {
            assert(run_end(r2[k]) < r2[l].start);
        }
        if m > k {
            assert(run_end(r1[k]) < r1[m].start);
        }
        assert(l == k);
        let s = r1[k].start as int;
        let e1 = run_end(r1[k]);
        let e2 = run_end(r2[k]);
        if e1 < e2 {
            assert(covers(r2[k], e1));
            assert(differs(after, before, e1));
        }
        if e2 < e1 {
            assert(covers(r1[k], e2));
            assert(differs(after, before, e2));
        }
        assert(r1[k].bytes@ =~= r2[k].bytes@) by {
            assert forall|j: int| 0 <= j < r1[k].bytes@.len() implies r1[k].bytes@[j]
                == r2[k].bytes@[j] by {
                assert(r1[k].bytes@[j] == after[s + j]);
                assert(r2[k].bytes@[j] == after[s + j]);
            }
        }
    }
}

/// Two memory diffs of the same pair of images are the same runs: the report that a run
/// gives depends on the final and initial memory alone.
pub proof fn lemma_memory_diff_unique(
    r1: Seq<DiffRun>,
    r2: Seq<DiffRun>,
    after: Seq<u8>,
    before: Seq<u8>,
)
    requires
        is_memory_diff(r1, after, before),
        is_memory_diff(r2, after, before),
    ensures
        r1.len() == r2.len(),
        forall|k: int|
            0 <= k < r1.len() ==> (#[trigger] r1[k]).start == r2[k].start && r1[k].bytes@
                == r2[k].bytes@,
{
    let n = if r1.len() < r2.len() {
        r1.len() as int
    } else {
        r2.len() as int
    };
    lemma_runs_agree(r1, r2, after, before, n);
    if n < r1.len() {
        assert(run_ok(r1[n], after, before));
        let l = lemma_start_matches(r2, after, before, r1[n].start as int);
        assert(r1[l].start == r2[l].start);
        assert(run_end(r1[l]) < r1[n].start);
    }
    if n < r2.len() {
        assert(run_ok(r2[n], after, before));
        let m = lemma_start_matches(r1, after, before, r2[n].start as int);
        assert(r1[m].start == r2[m].start);
        assert(run_end(r2[m]) < r2[n].start);
    }
}

/// Identical images have an empty memory diff.
pub proof fn lemma_diff_of_equal_images(runs: Seq<DiffRun>, image: Seq<u8>)
    requires
        is_memory_diff(runs, image, image),
    ensures
        runs.len() == 0,
{
    if runs.len() > 0 {
        assert(run_ok(runs[0], image, image));
        assert(differs(image, image, runs[0].start as int));
    }
}

} // verus!
