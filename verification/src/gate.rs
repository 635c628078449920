//! The execution gate's verdict.
//!
//! Once the transitive closure of native extensions is collected, the
//! gate partitions it through the trust store.  If any member is
//! untrusted the verdict is blocked and carries one report entry —
//! title, path, hash — for each untrusted native, in traversal order;
//! the caller renders the report and only invokes the script engine
//! on a clear verdict.

use vstd::prelude::*;
use crate::bless::{BlessInfo, BlessModel, TransitiveNative};

verus! {

/// Clear, or blocked with one entry per untrusted native.
pub enum Verdict {
    Clear,
    Blocked { report: Vec<BlessInfo> },
}

/// The identity models of a report.
pub open spec fn report_models(v: Seq<BlessInfo>) -> Seq<BlessModel> {
    v.map_values(|b: BlessInfo| b.model())
}

/// The identities of the untrusted members, in order.
pub open spec fn unblessed_reports(natives: Seq<TransitiveNative>) -> Seq<BlessModel>
    decreases natives.len(),
{
    if natives.len() == 0 {
        Seq::empty()
    } else {
        let head = unblessed_reports(natives.drop_last());
        if natives.last().spec_is_blessed() {
            head
        } else {
            head.push(natives.last().bless.model())
        }
    }
}

/// A clear verdict means every member is trusted; a blocked verdict
/// carries exactly the untrusted members' identities.
pub fn gate_verdict(natives: &Vec<TransitiveNative>) -> (v: Verdict)
    ensures
        (v is Clear) <==> (forall|i: int|
            0 <= i < natives@.len() ==> #[trigger] natives@[i].spec_is_blessed()),
        v matches Verdict::Blocked { report } ==> report_models(report@) == unblessed_reports(
            natives@,
        ) && report@.len() > 0,
{
    let mut report: Vec<BlessInfo> = Vec::new();
    let n = natives.len();
    let mut i: usize = 0;
    proof {
        assert(report_models(report@) =~= Seq::<BlessModel>::empty());
        assert(natives@.take(0) =~= Seq::<TransitiveNative>::empty());
    }
    while i < n
        invariant
            0 <= i <= n,
            n == natives@.len(),
            report_models(report@) == unblessed_reports(natives@.take(i as int)),
            (report@.len() == 0) <==> (forall|j: int|
                0 <= j < i ==> #[trigger] natives@[j].spec_is_blessed()),
        decreases n - i,
    {
        let ghost pre = report_models(report@);
        proof {
            assert(natives@.take(i + 1).drop_last() =~= natives@.take(i as int));
            assert(natives@.take(i + 1).last() == natives@[i as int]);
        }
        if !natives[i].is_blessed() {
            report.push(natives[i].bless.duplicate());
            proof {
                assert(report_models(report@) =~= pre.push(natives@[i as int].bless.model()));
            }
        }
        i = i + 1;
    }
    proof {
        assert(natives@.take(n as int) =~= natives@);
    }
    if report.len() == 0 {
        Verdict::Clear
    } else {
        Verdict::Blocked { report }
    }
}

} // verus!
