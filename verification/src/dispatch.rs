use vstd::prelude::*;

verus! {

/// What the runtime observed of one handler invocation: the subscription id
/// it ran under, and whether the handler faulted instead of returning.
#[derive(Clone, Copy, PartialEq, Eq, Structural)]
pub struct RunReport {
    pub id: usize,
    pub faulted: bool,
}

/// The captured record of one handler's abnormal termination during a
/// publish: the subscription id under which the handler ran.
#[derive(Clone, Copy, PartialEq, Eq, Structural)]
pub struct FailureRecord {
    pub id: usize,
}

/// The failure records that a sequence of invocation reports yields: one
/// record per faulted report, in report order.
pub open spec fn failure_records(reports: Seq<RunReport>) -> Seq<FailureRecord>
    decreases reports.len(),
{
    if reports.len() == 0 {
        Seq::empty()
    } else {
        let rest = failure_records(reports.drop_last());
        if reports.last().faulted {
            rest.push(FailureRecord { id: reports.last().id })
        } else {
            rest
        }
    }
}

/// How many of the reports are faults.
pub open spec fn fault_count(reports: Seq<RunReport>) -> nat
    decreases reports.len(),
{
    if reports.len() == 0 {
        0
    } else {
        fault_count(reports.drop_last()) + if reports.last().faulted { 1nat } else { 0nat }
    }
}

/// Aggregate the per-handler invocation reports of one publish into its
/// overall outcome: success exactly when no handler faulted, otherwise the
/// full list of failure records, one per faulted handler, in report order.
/// One handler's fault never suppresses another's record.
pub fn collect_failures(reports: &Vec<RunReport>) -> (r: Result<(), Vec<FailureRecord>>)
    ensures
        r is Ok <==> fault_count(reports@) == 0,
        r matches Err(failures) ==> failures@ == failure_records(reports@),
{
    let mut failures: Vec<FailureRecord> = Vec::new();
    let mut i: usize = 0;
    while i < reports.len()
        invariant
            0 <= i <= reports.len(),
            failures@ == failure_records(reports@.take(i as int)),
            failures@.len() == fault_count(reports@.take(i as int)),
        decreases reports.len() - i,
    {
        proof {
            assert(reports@.take(i + 1).drop_last() =~= reports@.take(i as int));
            assert(reports@.take(i + 1).last() == reports@[i as int]);
        }
        if reports[i].faulted {
            failures.push(FailureRecord { id: reports[i].id });
        }
        i += 1;
    }
    proof {
        assert(reports@.take(reports@.len() as int) =~= reports@);
    }
    if failures.len() == 0 {
        proof {
            assert(failure_records(reports@).len() == 0);
        }
        Ok(())
    } else {
        Err(failures)
    }
}

/// Some report in the sequence faulted under the id the record carries.
pub open spec fn reported_fault(reports: Seq<RunReport>, rec: FailureRecord) -> bool {
    exists|i: int|
        0 <= i < reports.len() && (#[trigger] reports[i]).faulted && reports[i].id == rec.id
}

/// Fault isolation: a publish with faulting handlers reports one failure
/// record per faulted invocation — no more, no fewer — and every record
/// carries the id of a report that did fault.
pub proof fn lemma_failure_records_exact(reports: Seq<RunReport>)
    ensures
        failure_records(reports).len() == fault_count(reports),
        forall|k: int|
            0 <= k < failure_records(reports).len() ==> #[trigger] reported_fault(
                reports,
                failure_records(reports)[k],
            ),
    decreases reports.len(),
{
    if reports.len() > 0 {
        lemma_failure_records_exact(reports.drop_last());
        assert forall|k: int| 0 <= k < failure_records(reports).len() implies #[trigger] reported_fault(
            reports,
            failure_records(reports)[k],
        ) by {
            let prev = failure_records(reports.drop_last());
            if k < prev.len() {
                assert(reported_fault(reports.drop_last(), prev[k]));
                let i = choose|i: int|
                    0 <= i < reports.drop_last().len() && (#[trigger] reports.drop_last()[i]).faulted
                        && reports.drop_last()[i].id == prev[k].id;
                assert(reports[i] == reports.drop_last()[i]);
                assert(failure_records(reports)[k] == prev[k]);
                assert(0 <= i < reports.len() && reports[i].faulted && reports[i].id
                    == failure_records(reports)[k].id);
            } else {
                let i = reports.len() - 1;
                assert(reports.last().faulted);
                assert(reports[i] == reports.last());
                assert(failure_records(reports)[k] == FailureRecord { id: reports.last().id });
                assert(0 <= i < reports.len() && reports[i].faulted && reports[i].id
                    == failure_records(reports)[k].id);
            }
        }
    }
}

/// Tracks the shared-handler fan-out of one publish against its concurrency
/// budget: how many invocations are in flight on worker threads, never more
/// than the budget.
pub struct FanOut {
    budget: usize,
    in_flight: usize,
}

impl FanOut {
    /// The concurrency budget the fan-out was created with.
    pub closed spec fn budget_spec(&self) -> int {
        self.budget as int
    }

    /// How many units of work are currently in flight.
    pub closed spec fn in_flight_spec(&self) -> int {
        self.in_flight as int
    }

    /// A fan-out is well formed when its budget is at least one and the work
    /// in flight stays within the budget.
    pub open spec fn wf(&self) -> bool {
        1 <= self.budget_spec() && 0 <= self.in_flight_spec() <= self.budget_spec()
    }

    /// A fan-out with the given concurrency budget and no work in flight.
    /// The budget is the number of available hardware execution contexts,
    /// with one as the fallback, so it is at least one.
    pub fn new(budget: usize) -> (s: FanOut)
        requires
            budget >= 1,
        ensures
            s.wf(),
            s.budget_spec() == budget,
            s.in_flight_spec() == 0,
    {
        FanOut { budget, in_flight: 0 }
    }

    /// The budget is saturated: the oldest outstanding unit must be joined
    /// before the next one may be spawned.
    pub fn saturated(&self) -> (b: bool)
        ensures
            b == (self.in_flight_spec() == self.budget_spec()),
    {
        self.in_flight == self.budget
    }

    /// Some unit of work is still outstanding.
    pub fn busy(&self) -> (b: bool)
        ensures
            b == (self.in_flight_spec() > 0),
    {
        self.in_flight > 0
    }

    /// Record that one unit of work was handed to a worker.  The caller must
    /// have joined a unit first whenever the budget was saturated.
    pub fn record_spawn(&mut self)
        requires
            old(self).wf(),
            old(self).in_flight_spec() < old(self).budget_spec(),
        ensures
            final(self).wf(),
            final(self).budget_spec() == old(self).budget_spec(),
            final(self).in_flight_spec() == old(self).in_flight_spec() + 1,
    {
        self.in_flight = self.in_flight + 1;
    }

    /// Record that one outstanding unit of work was joined.
    pub fn record_join(&mut self)
        requires
            old(self).wf(),
            old(self).in_flight_spec() > 0,
        ensures
            final(self).wf(),
            final(self).budget_spec() == old(self).budget_spec(),
            final(self).in_flight_spec() == old(self).in_flight_spec() - 1,
    {
        self.in_flight = self.in_flight - 1;
    }
}

/// Concurrency bound: however the runtime interleaves spawning and joining,
/// every step of the fan-out keeps it well formed, so at no instant are more
/// invocations in flight than the concurrency budget.
pub proof fn lemma_concurrency_bound(s: &FanOut)
    requires
        s.wf(),
    ensures
        s.in_flight_spec() <= s.budget_spec(),
{
}

} // verus!
