use crate::error::ErrorCode;
use crate::records::{build, main_record, records_view, subtype_records, Record, RecordView};
use crate::service::{HostIdentity, HostIdentityView, LogicalService, LogicalServiceView, ServiceId};
use vstd::prelude::*;

verus! {

/// The names under which one logical service is known to the registrar.
#[derive(Debug)]
pub struct RegisteredRecordSet {
    pub main: String,
    pub subtypes: Vec<String>,
}

/// A record set as plain values.
pub struct RegisteredRecordSetView {
    pub main: Seq<char>,
    pub subtypes: Seq<Seq<char>>,
}

impl RegisteredRecordSetView {
    /// Every stored name: the main record's, then the subtypes' in order.
    pub open spec fn names(self) -> Seq<Seq<char>> {
        seq![self.main] + self.subtypes
    }
}

/// The contents of a sequence of strings.
pub open spec fn names_view(names: Seq<String>) -> Seq<Seq<char>> {
    Seq::new(names.len(), |i: int| names[i]@)
}

impl View for RegisteredRecordSet {
    type V = RegisteredRecordSetView;

    open spec fn view(&self) -> RegisteredRecordSetView {
        RegisteredRecordSetView { main: self.main@, subtypes: names_view(self.subtypes@) }
    }
}

/// What the registrar is to be told for a service that is not yet
/// advertised.
#[derive(Debug)]
pub struct Registration {
    pub id: ServiceId,
    pub main: Record,
    pub subtypes: Vec<Record>,
}

/// A registration as plain values.
pub struct RegistrationView {
    pub id: ServiceId,
    pub main: RecordView,
    pub subtypes: Seq<RecordView>,
}

impl RegistrationView {
    /// The names that are remembered once the registrar has accepted the
    /// registration.
    pub open spec fn record_set(self) -> RegisteredRecordSetView {
        RegisteredRecordSetView {
            main: self.main.name,
            subtypes: Seq::new(self.subtypes.len(), |i: int| self.subtypes[i].name),
        }
    }
}

impl View for Registration {
    type V = RegistrationView;

    open spec fn view(&self) -> RegistrationView {
        RegistrationView { id: self.id, main: self.main@, subtypes: records_view(self.subtypes@) }
    }
}

/// The views of a sequence of registrations.
pub open spec fn registrations_view(rs: Seq<Registration>) -> Seq<RegistrationView> {
    Seq::new(rs.len(), |i: int| rs[i]@)
}

/// The views of a snapshot of the logical service set.
pub open spec fn snapshot_view(services: Seq<LogicalService>) -> Seq<LogicalServiceView> {
    Seq::new(services.len(), |i: int| services[i]@)
}

/// One line of the bookkeeping: an identity and the names registered for it.
pub struct EntryView {
    pub id: ServiceId,
    pub records: RegisteredRecordSetView,
}

struct Entry {
    id: ServiceId,
    records: RegisteredRecordSet,
}

impl View for Entry {
    type V = EntryView;

    closed spec fn view(&self) -> EntryView {
        EntryView { id: self.id, records: self.records@ }
    }
}

/// What one reconciliation asks of the registrar: the names to withdraw and
/// the registrations to make.
#[derive(Debug)]
pub struct ReconcilePlan {
    pub deregister: Vec<String>,
    pub register: Vec<Registration>,
}

/// Whether `id` is the identity of a service in the snapshot.
pub open spec fn observed(snapshot: Seq<LogicalServiceView>, id: ServiceId) -> bool {
    exists|j: int| 0 <= j < snapshot.len() && (#[trigger] snapshot[j]).id() == id
}

/// Whether the bookkeeping has an entry for `id`.
pub open spec fn has_entry(entries: Seq<EntryView>, id: ServiceId) -> bool {
    exists|j: int| 0 <= j < entries.len() && (#[trigger] entries[j]).id == id
}

/// No identity has two entries.
pub open spec fn distinct_ids(entries: Seq<EntryView>) -> bool {
    forall|i: int, j: int|
        0 <= i < j < entries.len() ==> (#[trigger] entries[i]).id != (#[trigger] entries[j]).id
}

/// The entries whose identity is still in the snapshot, in their order.
pub open spec fn kept(entries: Seq<EntryView>, snapshot: Seq<LogicalServiceView>) -> Seq<EntryView>
    decreases entries.len(),
{
    if entries.len() == 0 {
        Seq::empty()
    } else if observed(snapshot, entries.last().id) {
        kept(entries.drop_last(), snapshot).push(entries.last())
    } else {
        kept(entries.drop_last(), snapshot)
    }
}

/// The names to withdraw: every stored name of every entry whose identity
/// has left the snapshot, entry by entry.
pub open spec fn withdrawn(entries: Seq<EntryView>, snapshot: Seq<LogicalServiceView>) -> Seq<Seq<char>>
    decreases entries.len(),
{
    if entries.len() == 0 {
        Seq::empty()
    } else if observed(snapshot, entries.last().id) {
        withdrawn(entries.drop_last(), snapshot)
    } else {
        withdrawn(entries.drop_last(), snapshot) + entries.last().records.names()
    }
}

/// Every stored name of every entry, entry by entry.
pub open spec fn all_names(entries: Seq<EntryView>) -> Seq<Seq<char>> {
    withdrawn(entries, Seq::empty())
}

/// The registration of a service on a host.
pub open spec fn registration_of(s: LogicalServiceView, h: HostIdentityView) -> RegistrationView {
    RegistrationView { id: s.id(), main: main_record(s, h), subtypes: subtype_records(s, h) }
}

/// The registrations to make: one for each identity of the snapshot that
/// has no entry, built from the first service of that identity.
pub open spec fn additions(
    snapshot: Seq<LogicalServiceView>,
    entries: Seq<EntryView>,
    h: HostIdentityView,
) -> Seq<RegistrationView>
    decreases snapshot.len(),
{
    if snapshot.len() == 0 {
        Seq::empty()
    } else if has_entry(entries, snapshot.last().id()) || observed(
        snapshot.drop_last(),
        snapshot.last().id(),
    ) {
        additions(snapshot.drop_last(), entries, h)
    } else {
        additions(snapshot.drop_last(), entries, h).push(registration_of(snapshot.last(), h))
    }
}

/// The bookkeeping after the registrar has accepted a registration: a new
/// entry at the end, or no change where the identity has one already.
pub open spec fn confirmed(entries: Seq<EntryView>, reg: RegistrationView) -> Seq<EntryView> {
    if has_entry(entries, reg.id) {
        entries
    } else {
        entries.push(EntryView { id: reg.id, records: reg.record_set() })
    }
}

/// Keeps the advertised records in step with the logical service set. It
/// decides what the registrar is to be told and remembers what it was told;
/// the calls themselves are made by its owner.
pub struct MdnsDsResponder {
    host: HostIdentity,
    services: Vec<Entry>,
}

impl MdnsDsResponder {
    /// The bookkeeping, oldest entry first.
    pub closed spec fn entries(&self) -> Seq<EntryView> {
        Seq::new(self.services@.len(), |i: int| self.services@[i]@)
    }

    /// The host that the records point at.
    pub closed spec fn host(&self) -> HostIdentityView {
        self.host@
    }

    /// At most one record set per identity.
    pub open spec fn wf(&self) -> bool {
        distinct_ids(self.entries())
    }

    /// A responder that has registered nothing yet.
    pub fn new(host: HostIdentity) -> (r: Self)
        ensures
            r.wf(),
            r.entries() == Seq::<EntryView>::empty(),
            r.host() == host@,
    {
        let r = MdnsDsResponder { host, services: Vec::new() };
        assert(r.entries() =~= Seq::<EntryView>::empty());
        r
    }

    /// The number of identities that have a record set.
    pub fn len(&self) -> (n: usize)
        ensures
            n == self.entries().len(),
    {
        self.services.len()
    }

    fn position(&self, id: ServiceId) -> (r: Option<usize>)
        ensures
            r is Some <==> has_entry(self.entries(), id),
            r is Some ==> r->0 < self.entries().len() && self.entries()[r->0 as int].id == id,
    {
        let mut i: usize = 0;
        while i < self.services.len()
            invariant
                i <= self.services.len(),
                forall|j: int| 0 <= j < i ==> (#[trigger] self.entries()[j]).id != id,
            decreases self.services.len() - i,
        {
            if self.services[i].id == id {
                assert(self.entries()[i as int].id == id);
                return Some(i);
            }
            i += 1;
        }
        None
    }

    /// Whether `id` has a record set.
    pub fn is_registered(&self, id: ServiceId) -> (r: bool)
        ensures
            r == has_entry(self.entries(), id),
    {
        self.position(id).is_some()
    }

    /// The names stored for `id`, the main record's first, or `None` where
    /// `id` has no record set.
    pub fn registered_names(&self, id: ServiceId) -> (r: Option<Vec<String>>)
        ensures
            r is Some <==> has_entry(self.entries(), id),
            r is Some ==> exists|k: int|
                0 <= k < self.entries().len() && (#[trigger] self.entries()[k]).id == id
                    && names_view(r->0@) == self.entries()[k].records.names(),
    {
        match self.position(id) {
            None => None,
            Some(k) => {
                let names = entry_names(&self.services[k]);
                assert(self.entries()[k as int].id == id);
                Some(names)
            },
        }
    }

    /// Decides what registering `service` takes. A service whose identity
    /// has a record set already needs nothing: the answer is `None`.
    /// Otherwise the answer holds the records to hand to the registrar; the
    /// bookkeeping changes only when `confirm` reports their success.
    pub fn register(&self, service: &LogicalService) -> (r: Option<Registration>)
        ensures
            r is Some <==> !has_entry(self.entries(), service@.id()),
            r is Some ==> r->0@ == registration_of(service@, self.host()),
    {
        if self.is_registered(service.id()) {
            None
        } else {
            let (main, subtypes) = build(service, &self.host);
            Some(Registration { id: service.id(), main, subtypes })
        }
    }

    /// Stores the record set of a registration that the registrar accepted.
    /// Where the identity has a record set already, that one stays as it is.
    pub fn confirm(&mut self, registration: &Registration)
        requires
            old(self).wf(),
        ensures
            final(self).wf(),
            final(self).host() == old(self).host(),
            final(self).entries() == confirmed(old(self).entries(), registration@),
    {
        if !self.is_registered(registration.id) {
            let mut subtypes: Vec<String> = Vec::new();
            let mut i: usize = 0;
            while i < registration.subtypes.len()
                invariant
                    i <= registration.subtypes.len(),
                    subtypes.len() == i,
                    forall|j: int| 0 <= j < i ==> (#[trigger] subtypes[j])@ == registration.subtypes[j].name@,
                decreases registration.subtypes.len() - i,
            {
                subtypes.push(registration.subtypes[i].name.clone());
                i += 1;
            }
            let records = RegisteredRecordSet { main: registration.main.name.clone(), subtypes };
            assert(records@.subtypes =~= registration@.record_set().subtypes);
            self.services.push(Entry { id: registration.id, records });
            assert(self.entries() =~= confirmed(old(self).entries(), registration@));
        }
    }

    /// Takes in what the registrar answered to a registration. An accepted
    /// one is confirmed; a rejected one leaves the bookkeeping as it is, so
    /// that the next reconciliation plans it again, and is answered with
    /// `RegistrationFailed`.
    pub fn settle(&mut self, registration: &Registration, accepted: bool) -> (r: Result<
        (),
        ErrorCode,
    >)
        requires
            old(self).wf(),
        ensures
            final(self).wf(),
            final(self).host() == old(self).host(),
            accepted ==> r is Ok && final(self).entries() == confirmed(
                old(self).entries(),
                registration@,
            ),
            !accepted ==> r == Err::<(), ErrorCode>(ErrorCode::RegistrationFailed)
                && final(self).entries() == old(self).entries(),
    {
        if accepted {
            self.confirm(registration);
            Ok(())
        } else {
            Err(ErrorCode::RegistrationFailed)
        }
    }

    /// Ends advertising: forgets every record set and lists every stored
    /// name for a last withdrawal.
    pub fn shutdown(&mut self) -> (names: Vec<String>)
        requires
            old(self).wf(),
        ensures
            final(self).wf(),
            final(self).host() == old(self).host(),
            final(self).entries() == Seq::<EntryView>::empty(),
            names_view(names@) == all_names(old(self).entries()),
    {
        let nothing: Vec<LogicalService> = Vec::new();
        assert(snapshot_view(nothing@) =~= Seq::<LogicalServiceView>::empty());
        proof {
            lemma_empty_snapshot_keeps_nothing(self.entries());
        }
        let plan = self.update_services(&nothing);
        plan.deregister
    }

    /// Brings the bookkeeping in step with a full snapshot of the logical
    /// service set. Every entry whose identity has left the snapshot is
    /// dropped and its names are listed for withdrawal; every identity of
    /// the snapshot without an entry gets a registration to make. An
    /// identity that is in both is left alone.
    pub fn update_services(&mut self, services: &Vec<LogicalService>) -> (plan: ReconcilePlan)
        requires
            old(self).wf(),
        ensures
            final(self).wf(),
            final(self).host() == old(self).host(),
            final(self).entries() == kept(old(self).entries(), snapshot_view(services@)),
            names_view(plan.deregister@) == withdrawn(
                old(self).entries(),
                snapshot_view(services@),
            ),
            registrations_view(plan.register@) == additions(
                snapshot_view(services@),
                old(self).entries(),
                old(self).host(),
            ),
    {
        let ghost snapshot = snapshot_view(services@);
        let ghost before = self.entries();
        let mut register: Vec<Registration> = Vec::new();
        let mut j: usize = 0;
        while j < services.len()
            invariant
                j <= services.len(),
                snapshot == snapshot_view(services@),
                before == self.entries(),
                self.host() == old(self).host(),
                registrations_view(register@) == additions(snapshot.take(j as int), before, self.host()),
            decreases services.len() - j,
        {
            let ghost prefix = snapshot.take(j as int + 1);
            assert(prefix.drop_last() =~= snapshot.take(j as int));
            assert(prefix.last() == services[j as int]@);
            let seen = seen_before(services, j, services[j].id());
            if !seen {
                match self.register(&services[j]) {
                    Some(registration) => {
                        register.push(registration);
                    },
                    None => {},
                }
            }
            j += 1;
            assert(registrations_view(register@) =~= additions(prefix, before, self.host()));
        }
        assert(snapshot.take(services.len() as int) =~= snapshot);

        let mut deregister: Vec<String> = Vec::new();
        let mut i: usize = 0;
        let ghost mut k: int = 0;
        while i < self.services.len()
            invariant
                snapshot == snapshot_view(services@),
                self.host() == old(self).host(),
                0 <= k <= before.len(),
                i <= self.services.len(),
                i == kept(before.take(k), snapshot).len(),
                self.entries() =~= kept(before.take(k), snapshot) + before.skip(k),
                names_view(deregister@) == withdrawn(before.take(k), snapshot),
            decreases before.len() - k,
        {
            let ghost prefix = before.take(k + 1);
            assert(self.entries()[i as int] == before.skip(k)[0]);
            assert(prefix.drop_last() =~= before.take(k));
            assert(prefix.last() == before[k]);
            assert(before.skip(k + 1) =~= before.skip(k).skip(1));
            let ghost current = self.entries();
            assert(snapshot.take(services.len() as int) =~= snapshot);
            if seen_before(services, services.len(), self.services[i].id) {
                i += 1;
            } else {
                let entry = self.services.remove(i);
                assert(self.entries() =~= current.remove(i as int));
                let ghost listed = deregister@;
                let mut names = entry_names(&entry);
                deregister.append(&mut names);
                assert(names_view(deregister@) =~= names_view(listed) + entry@.records.names());
            }
            proof {
                k = k + 1;
            }
        }
        assert(before.take(k) =~= before);
        proof {
            lemma_kept_distinct(before, snapshot);
        }
        ReconcilePlan { deregister, register }
    }
}

fn entry_names(entry: &Entry) -> (r: Vec<String>)
    ensures
        names_view(r@) == entry@.records.names(),
{
    let mut names: Vec<String> = Vec::new();
    names.push(entry.records.main.clone());
    let mut i: usize = 0;
    while i < entry.records.subtypes.len()
        invariant
            i <= entry.records.subtypes.len(),
            names_view(names@) =~= seq![entry.records.main@] + names_view(
                entry.records.subtypes@.take(i as int),
            ),
        decreases entry.records.subtypes.len() - i,
    {
        let ghost listed = names@;
        names.push(entry.records.subtypes[i].clone());
        assert(names_view(names@) =~= names_view(listed).push(entry.records.subtypes@[i as int]@));
        assert(names_view(entry.records.subtypes@.take(i as int + 1)) =~= names_view(
            entry.records.subtypes@.take(i as int),
        ).push(entry.records.subtypes@[i as int]@));
        assert(entry.records.subtypes@.take(i as int + 1) =~= entry.records.subtypes@.take(
            i as int,
        ).push(entry.records.subtypes@[i as int]));
        i += 1;
    }
    assert(entry.records.subtypes@.take(i as int) =~= entry.records.subtypes@);
    names
}

fn seen_before(services: &Vec<LogicalService>, n: usize, id: ServiceId) -> (r: bool)
    requires
        n <= services.len(),
    ensures
        r == observed(snapshot_view(services@).take(n as int), id),
{
    let ghost prefix = snapshot_view(services@).take(n as int);
    let mut j: usize = 0;
    while j < n
        invariant
            j <= n <= services.len(),
            prefix == snapshot_view(services@).take(n as int),
            forall|m: int| 0 <= m < j ==> (#[trigger] prefix[m]).id() != id,
        decreases n - j,
    {
        if services[j].id() == id {
            assert(prefix[j as int].id() == id);
            return true;
        }
        j += 1;
    }
    false
}

/// Every kept entry was an entry before, and dropping entries never makes
/// two entries share an identity.
pub proof fn lemma_kept_distinct(entries: Seq<EntryView>, snapshot: Seq<LogicalServiceView>)
    ensures
        forall|i: int|
            0 <= i < kept(entries, snapshot).len() ==> has_entry(
                entries,
                (#[trigger] kept(entries, snapshot)[i]).id,
            ) && observed(snapshot, kept(entries, snapshot)[i].id),
        distinct_ids(entries) ==> distinct_ids(kept(entries, snapshot)),
    decreases entries.len(),
{
    if entries.len() > 0 {
        let front = entries.drop_last();
        lemma_kept_distinct(front, snapshot);
        let rest = kept(front, snapshot);
        assert forall|i: int| 0 <= i < rest.len() implies has_entry(entries, (#[trigger] rest[i]).id) by {
            let m = choose|m: int| 0 <= m < front.len() && (#[trigger] front[m]).id == rest[i].id;
            assert(entries[m].id == rest[i].id);
        }
        assert(entries[entries.len() - 1] == entries.last());
        if distinct_ids(entries) {
            assert(distinct_ids(front)) by {
                assert forall|i: int, j: int| 0 <= i < j < front.len() implies (#[trigger] front[i]).id
                    != (#[trigger] front[j]).id by {
                    assert(entries[i] == front[i] && entries[j] == front[j]);
                }
            }
            assert forall|i: int| 0 <= i < rest.len() implies (#[trigger] rest[i]).id
                != entries.last().id by {
                let m = choose|m: int| 0 <= m < front.len() && (#[trigger] front[m]).id == rest[i].id;
                assert(entries[m] == front[m]);
            }
        }
    }
}

/// A snapshot without services keeps no entry.
pub proof fn lemma_empty_snapshot_keeps_nothing(entries: Seq<EntryView>)
    ensures
        kept(entries, Seq::empty()) == Seq::<EntryView>::empty(),
    decreases entries.len(),
{
    if entries.len() > 0 {
        lemma_empty_snapshot_keeps_nothing(entries.drop_last());
    }
}

/// Once a registration for an identity is confirmed, the identity has exactly
/// one entry, a second confirmation for it changes nothing, and a snapshot
/// that holds it asks for no further registration.
pub proof fn lemma_second_registration_is_noop(
    entries: Seq<EntryView>,
    first: RegistrationView,
    second: RegistrationView,
    service: LogicalServiceView,
    h: HostIdentityView,
)
    requires
        distinct_ids(entries),
        first.id == second.id,
        service.id() == first.id,
    ensures
        distinct_ids(confirmed(entries, first)),
        has_entry(confirmed(entries, first), first.id),
        confirmed(confirmed(entries, first), second) == confirmed(entries, first),
        additions(seq![service], confirmed(entries, first), h) == Seq::<RegistrationView>::empty(),
{
    let after = confirmed(entries, first);
    if !has_entry(entries, first.id) {
        assert(after[entries.len() as int].id == first.id);
        assert forall|i: int, j: int| 0 <= i < j < after.len() implies (#[trigger] after[i]).id
            != (#[trigger] after[j]).id by {
            assert(after[i] == entries[i]);
            if j < entries.len() {
                assert(after[j] == entries[j]);
            }
        }
    }
    assert(has_entry(after, first.id));
    let snapshot = seq![service];
    assert(snapshot.last() == service);
    assert(additions(snapshot.drop_last(), after, h) == Seq::<RegistrationView>::empty());
}

/// When an identity with an entry is missing from the snapshot, it has no
/// entry afterwards, and the names to withdraw hold the names stored for it
/// once, between those of the entries before it and those of the entries
/// after it.
pub proof fn lemma_removed_identity_is_withdrawn(
    entries: Seq<EntryView>,
    snapshot: Seq<LogicalServiceView>,
    k: int,
)
    requires
        0 <= k < entries.len(),
        !observed(snapshot, entries[k].id),
    ensures
        !has_entry(kept(entries, snapshot), entries[k].id),
        withdrawn(entries, snapshot) == withdrawn(entries.take(k), snapshot)
            + entries[k].records.names() + withdrawn(entries.skip(k + 1), snapshot),
    decreases entries.len(),
{
    lemma_kept_distinct(entries, snapshot);
    let front = entries.drop_last();
    let tail = entries.skip(k + 1);
    if k == entries.len() - 1 {
        assert(entries.take(k) =~= front);
        assert(tail =~= Seq::<EntryView>::empty());
        assert(withdrawn(entries, snapshot) =~= withdrawn(entries.take(k), snapshot)
            + entries[k].records.names() + withdrawn(tail, snapshot));
    } else {
        lemma_removed_identity_is_withdrawn(front, snapshot, k);
        assert(front.take(k) =~= entries.take(k));
        assert(front.skip(k + 1) =~= tail.drop_last());
        assert(tail.last() == entries.last());
        assert(front[k] == entries[k]);
        assert(withdrawn(entries, snapshot) =~= withdrawn(entries.take(k), snapshot)
            + entries[k].records.names() + withdrawn(tail, snapshot));
    }
}

} // verus!
