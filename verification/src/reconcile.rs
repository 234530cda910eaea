use vstd::prelude::*;
use crate::domain::Domain;
use crate::domain::DomainView;
use crate::ip::IpAddress;
use crate::ip::ip_text;
use crate::ip::dns_type;
use crate::ip::dns_type_text;
use crate::payload::DomainList;
use crate::payload::RecordView;
use crate::payload::UploadRecord;
use crate::payload::UploadView;

verus! {

/// One provider mutation: create a record under the root zone, replace
/// the record with the given identifier, or delete it.
pub enum RecordAction {
    Insert { record: UploadRecord },
    Update { id: u64, record: UploadRecord },
    Delete { id: u64 },
}

/// Mathematical image of a [`RecordAction`].
pub ghost enum ActionView {
    Insert { record: UploadView },
    Update { id: u64, record: UploadView },
    Delete { id: u64 },
}

impl View for RecordAction {
    type V = ActionView;

    open spec fn view(&self) -> ActionView {
        match *self {
            RecordAction::Insert { record } => ActionView::Insert { record: record@ },
            RecordAction::Update { id, record } => ActionView::Update { id, record: record@ },
            RecordAction::Delete { id } => ActionView::Delete { id },
        }
    }
}

impl DeepView for RecordAction {
    type V = ActionView;

    open spec fn deep_view(&self) -> ActionView {
        self.view()
    }
}

/// The outbound record contents for `ip` under `dom`: the type from the
/// address family, the name the leftmost label only (not the full domain),
/// the data the canonical address text.
pub open spec fn upload_view(ip: IpAddress, dom: DomainView) -> UploadView {
    UploadView { ty: dns_type_text(ip), name: dom.name, data: ip_text(ip) }
}

/// The mutations that reconcile the provider records `recs` with `ip`:
/// no records, one insert; otherwise the first record is canonical and is
/// replaced only when its data text differs from the address text, and
/// every further record is deleted, in list order.
pub open spec fn plan_spec(ip: IpAddress, dom: DomainView, recs: Seq<RecordView>) -> Seq<
    ActionView,
> {
    if recs.len() == 0 {
        seq![ActionView::Insert { record: upload_view(ip, dom) }]
    } else {
        let dels = Seq::new(
            (recs.len() - 1) as nat,
            |i: int| ActionView::Delete { id: recs[i + 1].id },
        );
        if recs[0].data == ip_text(ip) {
            dels
        } else {
            seq![ActionView::Update { id: recs[0].id, record: upload_view(ip, dom) }] + dels
        }
    }
}

/// Decides which provider calls reconcile the listed records with the
/// resolved address, without performing any of them.
pub fn reconcile_plan(ip: &IpAddress, domain: &Domain, list: &DomainList) -> (plan: Vec<
    RecordAction,
>)
    ensures
        plan.deep_view() == plan_spec(*ip, domain@, list@),
{
    let txt = ip.to_text();
    let ty = dns_type(ip).to_owned();
    let mut plan: Vec<RecordAction> = Vec::new();
    let n = list.domain_records.len();
    if n == 0 {
        let record = UploadRecord { ty, name: domain.name.clone(), data: txt };
        plan.push(RecordAction::Insert { record });
        proof {
            assert(plan.deep_view() =~= plan_spec(*ip, domain@, list@));
        }
        return plan;
    }
    if list.domain_records[0].data == txt {
        // the canonical record already holds the address: no mutation
    } else {
        let record = UploadRecord { ty, name: domain.name.clone(), data: txt };
        plan.push(RecordAction::Update { id: list.domain_records[0].id, record });
    }
    let ghost head = plan.deep_view();
    let mut i: usize = 1;
    while i < n
        invariant
            1 <= i <= n,
            n == list.domain_records.len(),
            plan.deep_view() =~= head + Seq::new(
                (i - 1) as nat,
                |k: int| ActionView::Delete { id: list@[k + 1].id },
            ),
        decreases n - i,
    {
        let ghost prev = plan.deep_view();
        plan.push(RecordAction::Delete { id: list.domain_records[i].id });
        proof {
            assert(plan.deep_view() =~= prev.push(
                ActionView::Delete { id: list@[i as int].id },
            ));
        }
        i += 1;
        proof {
            assert(plan.deep_view() =~= head + Seq::new(
                (i - 1) as nat,
                |k: int| ActionView::Delete { id: list@[k + 1].id },
            ));
        }
    }
    proof {
        assert(plan.deep_view() =~= plan_spec(*ip, domain@, list@));
    }
    plan
}

/// With no remote records, reconciliation plans exactly one insert of the
/// outbound record and no update or delete.
pub proof fn lemma_plan_empty_inserts_once(ip: IpAddress, dom: DomainView, recs: Seq<RecordView>)
    requires
        recs.len() == 0,
    ensures
        plan_spec(ip, dom, recs) == seq![ActionView::Insert { record: upload_view(ip, dom) }],
{
}

/// With a single remote record that already holds the address text,
/// reconciliation plans no mutation at all: the run is idempotent.
pub proof fn lemma_plan_single_equal_is_noop(ip: IpAddress, dom: DomainView, recs: Seq<RecordView>)
    requires
        recs.len() == 1,
        recs[0].data == ip_text(ip),
    ensures
        plan_spec(ip, dom, recs) == Seq::<ActionView>::empty(),
{
    assert(plan_spec(ip, dom, recs) =~= Seq::<ActionView>::empty());
}

/// With a single remote record whose data differs from the address text,
/// reconciliation plans exactly one replace addressed to that record's
/// identifier and no delete.
pub proof fn lemma_plan_single_differs_updates_once(
    ip: IpAddress,
    dom: DomainView,
    recs: Seq<RecordView>,
)
    requires
        recs.len() == 1,
        recs[0].data != ip_text(ip),
    ensures
        (plan_spec(ip, dom, recs) == seq![
            ActionView::Update { id: recs[0].id, record: upload_view(ip, dom) },
        ]),
{
    assert(plan_spec(ip, dom, recs) =~= seq![
        ActionView::Update { id: recs[0].id, record: upload_view(ip, dom) },
    ]);
}

/// With two or more remote records whose first entry differs from the
/// address text, reconciliation plans one replace against the first record
/// followed by one delete for each remaining record, in list order.
/// (When the first entry already holds the address text, the replace is
/// skipped and only the deletes remain.)
pub proof fn lemma_plan_many_update_then_purge(
    ip: IpAddress,
    dom: DomainView,
    recs: Seq<RecordView>,
)
    requires
        recs.len() >= 2,
        recs[0].data != ip_text(ip),
    ensures
        plan_spec(ip, dom, recs).len() == recs.len(),
        (plan_spec(ip, dom, recs)[0] == ActionView::Update {
            id: recs[0].id,
            record: upload_view(ip, dom),
        }),
        (forall|k: int|
            1 <= k < recs.len() ==> plan_spec(ip, dom, recs)[k] == ActionView::Delete {
                id: recs[k].id,
            }),
{
}

} // verus!
