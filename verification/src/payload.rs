use vstd::prelude::*;

verus! {

/// A DNS record as the provider reports it: an opaque numeric identifier,
/// the record type (`A` or `AAAA`), the record name and the address text
/// it currently holds.
pub struct DomainRecord {
    pub ty: String,
    pub id: u64,
    pub name: String,
    pub data: String,
}

/// Mathematical image of a [`DomainRecord`].
pub ghost struct RecordView {
    pub ty: Seq<char>,
    pub id: u64,
    pub name: Seq<char>,
    pub data: Seq<char>,
}

impl View for DomainRecord {
    type V = RecordView;

    open spec fn view(&self) -> RecordView {
        RecordView { ty: self.ty@, id: self.id, name: self.name@, data: self.data@ }
    }
}

impl DeepView for DomainRecord {
    type V = RecordView;

    open spec fn deep_view(&self) -> RecordView {
        self.view()
    }
}

/// The provider's answer to a record query: the matching records, in the
/// order the provider returned them.
pub struct DomainList {
    pub domain_records: Vec<DomainRecord>,
}

impl View for DomainList {
    type V = Seq<RecordView>;

    open spec fn view(&self) -> Seq<RecordView> {
        self.domain_records.deep_view()
    }
}

/// The outbound subset of record fields the provider accepts on create
/// and replace calls.
pub struct UploadRecord {
    pub ty: String,
    pub name: String,
    pub data: String,
}

/// Mathematical image of an [`UploadRecord`].
pub ghost struct UploadView {
    pub ty: Seq<char>,
    pub name: Seq<char>,
    pub data: Seq<char>,
}

impl View for UploadRecord {
    type V = UploadView;

    open spec fn view(&self) -> UploadView {
        UploadView { ty: self.ty@, name: self.name@, data: self.data@ }
    }
}

impl DeepView for UploadRecord {
    type V = UploadView;

    open spec fn deep_view(&self) -> UploadView {
        self.view()
    }
}

} // verus!
