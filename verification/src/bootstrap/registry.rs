//! State and decisions of the bootstrap server: the registered services, the connected children, and what
//! each request is answered.
//!
//! The channels are of a type `C` chosen by the caller, who sends and receives through them; this module
//! decides what is sent.

use vstd::prelude::*;
use vstd::bytes::spec_u32_to_le_bytes;

use std::collections::BTreeMap;

use crate::bootstrap::order::{bytes_lt, compare_bytes, lemma_bytes_lt_asymmetric, lemma_bytes_lt_total, lemma_bytes_lt_transitive};
use crate::bootstrap::protocol::{
    push_u32, request_of_bytes, request_type_of, response_bytes, BootstrapRequest, BootstrapResponse,
    RequestType, ResponseStatus, BOOTSTRAP_MAGIC,
};
use crate::text::is_utf8;

verus! {

/// A registered service.
pub struct ServiceEntry<C> {
    /// Name of the service.
    name: Vec<u8>,
    /// The server's end of the service's channel.
    channel: C,
    /// Whether only privileged processes may obtain it.
    is_system: bool,
}

/// A connected child process.
pub struct ChildConnection<C> {
    /// Connection number, also the key under which its channel is watched.
    id: u64,
    /// The server's end of the child's bootstrap channel.
    channel: C,
    /// Whether the child is privileged.
    privileged: bool,
}

/// What the server does with a request it received.
pub enum BootstrapCommand {
    /// Nothing: the child is unknown or the message is shorter than a header.
    Ignore,
    /// Answer the child with this error status.
    Reject(ResponseStatus),
    /// Look up the named service for the child.
    GetService(Vec<u8>),
    /// Register the channel received in the first handle under this name.
    RegisterProvider(Vec<u8>),
    /// Answer the list of services.
    ListServices,
    /// Answer success.
    Ping,
}

/// What answers a `GetService` request.
#[derive(Debug, Clone, Copy, PartialEq, Eq, Structural)]
pub enum ServiceLookup {
    /// Nothing: the child is unknown.
    Ignore,
    /// Answer the child with this error status.
    Reject(ResponseStatus),
    /// Connect the child to the service at this position: a new channel pair, one end sent to the service,
    /// the other to the child with a success answer.
    Connect(usize),
}

/// Services listed in strictly increasing order of name.
pub open spec fn names_sorted(s: Seq<(Seq<u8>, bool)>) -> bool {
    forall|i: int, j: int| 0 <= i < j < s.len() ==> bytes_lt(#[trigger] s[i].0, #[trigger] s[j].0)
}

/// Whether a child with this number is connected.
pub open spec fn child_known(c: Map<u64, bool>, id: u64) -> bool {
    c.contains_key(id)
}

/// Whether the connected child with this number is privileged.
pub open spec fn child_privileged(c: Map<u64, bool>, id: u64) -> bool {
    c[id]
}

/// The length-prefixed names of the services, in order.
pub open spec fn list_entries(names: Seq<Seq<u8>>) -> Seq<u8>
    decreases names.len(),
{
    if names.len() == 0 {
        Seq::empty()
    } else {
        list_entries(names.drop_last()) + spec_u32_to_le_bytes(names.last().len() as u32) + names.last()
    }
}

/// Data of the answer to `ListServices`: the number of services, then each name with its length.
pub open spec fn list_payload(s: Seq<(Seq<u8>, bool)>) -> Seq<u8> {
    spec_u32_to_le_bytes(s.len() as u32) + list_entries(s.map_values(|e: (Seq<u8>, bool)| e.0))
}

/// The whole answer to `ListServices`: a success header announcing the data, then the data.
pub open spec fn list_message(s: Seq<(Seq<u8>, bool)>) -> Seq<u8> {
    response_bytes(
        BootstrapResponse {
            magic: BOOTSTRAP_MAGIC,
            status: 0,
            data_len: list_payload(s).len() as u32,
            handle_count: 0,
        },
    ) + list_payload(s)
}

/// Whether a received message of `data_len` bytes in `buf` holds a request header with the magic number,
/// the whole name it announces, and a name in UTF-8.
pub open spec fn request_well_formed(buf: Seq<u8>, data_len: int) -> bool {
    let req = request_of_bytes(buf);
    &&& req.magic == BOOTSTRAP_MAGIC
    &&& 16 + req.name_len <= data_len
    &&& vstd::utf8::valid_utf8(buf.subrange(16, 16 + req.name_len))
}

/// The service name of a received request.
pub open spec fn request_name(buf: Seq<u8>) -> Seq<u8> {
    buf.subrange(16, 16 + request_of_bytes(buf).name_len)
}

/// State of the bootstrap server.
pub struct BootstrapRegistry<C> {
    services: Vec<ServiceEntry<C>>,
    children: BTreeMap<u64, ChildConnection<C>>,
    next_conn_id: u64,
}

impl<C> BootstrapRegistry<C> {
    /// The services, by name and system flag, in the order of their names.
    pub closed spec fn services_view(&self) -> Seq<(Seq<u8>, bool)> {
        self.services@.map_values(|e: ServiceEntry<C>| (e.name@, e.is_system))
    }

    /// The connected children: the privilege of each, by number.
    pub closed spec fn children_view(&self) -> Map<u64, bool> {
        self.children@.map_values(|c: ChildConnection<C>| c.privileged)
    }

    /// The services' channels, in the order of [`services_view`](BootstrapRegistry::services_view).
    pub closed spec fn service_channels(&self) -> Seq<C> {
        self.services@.map_values(|e: ServiceEntry<C>| e.channel)
    }

    /// The children's channels, by number.
    pub closed spec fn child_channels(&self) -> Map<u64, C> {
        self.children@.map_values(|c: ChildConnection<C>| c.channel)
    }

    /// The number the next child will get.
    pub closed spec fn next_id(&self) -> u64 {
        self.next_conn_id
    }

    /// The state's invariant: services sorted by name, each child filed under its own number, every number
    /// below the next one.
    pub closed spec fn wf(&self) -> bool {
        &&& names_sorted(self.services_view())
        &&& forall|id: u64| #[trigger] self.children@.contains_key(id) ==> self.children@[id].id == id && id
            < self.next_conn_id
        &&& self.next_conn_id >= 1
    }

    /// An empty registry; the first child will get number 1.
    pub fn new() -> (res: Self)
        ensures
            res.wf(),
            res.services_view() == Seq::<(Seq<u8>, bool)>::empty(),
            res.children_view() == Map::<u64, bool>::empty(),
            res.service_channels() == Seq::<C>::empty(),
            res.child_channels() == Map::<u64, C>::empty(),
            res.next_id() == 1,
    {
        let r = BootstrapRegistry { services: Vec::new(), children: BTreeMap::new(), next_conn_id: 1 };
        assert(r.services_view() =~= Seq::<(Seq<u8>, bool)>::empty());
        assert(r.children_view() =~= Map::<u64, bool>::empty());
        assert(r.service_channels() =~= Seq::<C>::empty());
        assert(r.child_channels() =~= Map::<u64, C>::empty());
        r
    }

    /// Position of the service named `name`, if any.
    fn find_service(&self, name: &[u8]) -> (res: Option<usize>)
        ensures
            res matches Some(i) ==> i < self.services_view().len() && self.services_view()[i as int].0 == name@,
            res is None ==> forall|i: int| 0 <= i < self.services_view().len() ==> self.services_view()[i].0 != name@,
    {
        let mut i: usize = 0;
        while i < self.services.len()
            invariant
                i <= self.services@.len(),
                forall|k: int| 0 <= k < i ==> self.services_view()[k].0 != name@,
            decreases self.services@.len() - i,
        {
            if compare_bytes(self.services[i].name.as_slice(), name) == 0 {
                return Some(i);
            }
            i = i + 1;
        }
        None
    }

    /// Registers a service under `name`, replacing the one that had that name.
    pub fn register_service(&mut self, name: Vec<u8>, channel: C, is_system: bool)
        requires
            old(self).wf(),
        ensures
            final(self).wf(),
            final(self).children_view() == old(self).children_view(),
            final(self).child_channels() == old(self).child_channels(),
            final(self).next_id() == old(self).next_id(),
            forall|i: int|
                0 <= i < old(self).services_view().len() && #[trigger] old(self).services_view()[i].0 == name@
                    ==> final(self).services_view() == old(self).services_view().update(i, (name@, is_system))
                    && final(self).service_channels() == old(self).service_channels().update(i, channel),
            (forall|i: int| 0 <= i < old(self).services_view().len() ==> old(self).services_view()[i].0 != name@)
                ==> exists|p: int|
                0 <= p <= old(self).services_view().len() && final(self).services_view() == old(
                    self,
                ).services_view().insert(p, (name@, is_system)) && final(self).service_channels() == old(
                    self,
                ).service_channels().insert(p, channel),
    {
        proof {
            self.lemma_names_distinct();
        }
        match self.find_service(name.as_slice()) {
            Some(i) => {
                let ghost old_view = self.services_view();
                let ghost old_channels = self.service_channels();
                let ghost ch = channel;
                self.services.set(i, ServiceEntry { name, channel, is_system });
                assert(self.services_view() =~= old_view.update(i as int, (name@, is_system)));
                assert(self.service_channels() =~= old_channels.update(i as int, ch));
            },
            None => {
                self.insert_new_service(name, channel, is_system);
            },
        }
    }

    /// Two services never share a name.
    proof fn lemma_names_distinct(&self)
        requires
            self.wf(),
        ensures
            forall|i: int, j: int|
                0 <= i < self.services_view().len() && 0 <= j < self.services_view().len() && i != j
                    ==> #[trigger] self.services_view()[i].0 != #[trigger] self.services_view()[j].0,
    {
        assert forall|i: int, j: int|
            0 <= i < self.services_view().len() && 0 <= j < self.services_view().len() && i != j
                implies #[trigger] self.services_view()[i].0 != #[trigger] self.services_view()[j].0 by {
            let s = self.services_view();
            if i < j {
                assert(bytes_lt(s[i].0, s[j].0));
            } else {
                assert(bytes_lt(s[j].0, s[i].0));
            }
            lemma_bytes_lt_asymmetric(s[i].0, s[j].0);
        }
    }

    /// Inserts a service whose name is not registered at the place its name takes in the order.
    fn insert_new_service(&mut self, name: Vec<u8>, channel: C, is_system: bool)
        requires
            old(self).wf(),
            forall|i: int| 0 <= i < old(self).services_view().len() ==> old(self).services_view()[i].0 != name@,
        ensures
            final(self).wf(),
            final(self).children_view() == old(self).children_view(),
            final(self).child_channels() == old(self).child_channels(),
            final(self).next_id() == old(self).next_id(),
            exists|p: int|
                0 <= p <= old(self).services_view().len() && final(self).services_view() == old(
                    self,
                ).services_view().insert(p, (name@, is_system)) && final(self).service_channels() == old(
                    self,
                ).service_channels().insert(p, channel),
    {
        let ghost s = self.services_view();
        let ghost chans = self.service_channels();
        let ghost ch = channel;
        let mut p: usize = 0;
        while p < self.services.len() && compare_bytes(self.services[p].name.as_slice(), name.as_slice()) == -1
            invariant
                p <= self.services@.len(),
                s == self.services_view(),
                forall|k: int| 0 <= k < p ==> bytes_lt(#[trigger] s[k].0, name@),
            decreases self.services@.len() - p,
        {
            p = p + 1;
        }
        proof {
            if p < s.len() {
                lemma_bytes_lt_total(s[p as int].0, name@);
                assert(bytes_lt(name@, s[p as int].0));
                assert forall|k: int| p <= k < s.len() implies bytes_lt(name@, #[trigger] s[k].0) by {
                    if k > p {
                        assert(bytes_lt(s[p as int].0, s[k].0));
                        lemma_bytes_lt_transitive(name@, s[p as int].0, s[k].0);
                    }
                }
            }
        }
        self.services.insert(p, ServiceEntry { name, channel, is_system });
        proof {
            let t = s.insert(p as int, (name@, is_system));
            assert(self.services_view() =~= t);
            assert(self.service_channels() =~= chans.insert(p as int, ch));
            assert forall|i: int, j: int| 0 <= i < j < t.len() implies bytes_lt(#[trigger] t[i].0, #[trigger] t[j].0) by {
                if j < p {
                    assert(t[i] == s[i] && t[j] == s[j]);
                } else if j == p {
                    assert(t[i] == s[i]);
                } else if i < p {
                    assert(t[i] == s[i] && t[j] == s[j - 1]);
                    lemma_bytes_lt_transitive(s[i].0, name@, s[j - 1].0);
                } else if i == p {
                    assert(t[j] == s[j - 1]);
                } else {
                    assert(t[i] == s[i - 1] && t[j] == s[j - 1]);
                }
            }
        }
    }

    /// Connects a child and returns its number, which is also the key under which its channel is watched.
    pub fn add_child(&mut self, channel: C, privileged: bool) -> (res: u64)
        requires
            old(self).wf(),
            old(self).next_id() < u64::MAX,
        ensures
            final(self).wf(),
            res == old(self).next_id(),
            !child_known(old(self).children_view(), res),
            final(self).next_id() == old(self).next_id() + 1,
            final(self).children_view() == old(self).children_view().insert(res, privileged),
            final(self).child_channels() == old(self).child_channels().insert(res, channel),
            final(self).services_view() == old(self).services_view(),
            final(self).service_channels() == old(self).service_channels(),
    {
        broadcast use vstd::std_specs::btree::group_btree_axioms;

        let id = self.next_conn_id;
        self.next_conn_id = self.next_conn_id + 1;
        let ghost c = self.children_view();
        let ghost chans = self.child_channels();
        let ghost ch = channel;
        assert(!self.children@.contains_key(id));
        self.children.insert(id, ChildConnection { id, channel, privileged });
        assert(self.children_view() =~= c.insert(id, privileged));
        assert(self.child_channels() =~= chans.insert(id, ch));
        id
    }

    /// The privilege of the child numbered `id`, if it is connected.
    fn child_privilege(&self, id: u64) -> (res: Option<bool>)
        ensures
            res is None <==> !child_known(self.children_view(), id),
            res matches Some(p) ==> p == child_privileged(self.children_view(), id),
    {
        broadcast use vstd::std_specs::btree::group_btree_axioms;

        match self.children.get(&id) {
            Some(child) => Some(child.privileged),
            None => None,
        }
    }

    /// Disconnects the child numbered `id`; returns the key under which its channel was watched, or `None`
    /// when no such child is connected.
    pub fn remove_child(&mut self, id: u64) -> (res: Option<u64>)
        requires
            old(self).wf(),
        ensures
            final(self).wf(),
            final(self).services_view() == old(self).services_view(),
            final(self).service_channels() == old(self).service_channels(),
            final(self).next_id() == old(self).next_id(),
            !child_known(old(self).children_view(), id) ==> res is None,
            child_known(old(self).children_view(), id) ==> res == Some(id),
            final(self).children_view() == old(self).children_view().remove(id),
            final(self).child_channels() == old(self).child_channels().remove(id),
    {
        broadcast use vstd::std_specs::btree::group_btree_axioms;

        let ghost c = self.children_view();
        let ghost chans = self.child_channels();
        let removed = self.children.remove(&id);
        assert(self.children_view() =~= c.remove(id));
        assert(self.child_channels() =~= chans.remove(id));
        match removed {
            Some(child) => Some(child.id),
            None => None,
        }
    }

    /// What to do with a message of `data_len` bytes received in `buf` from the child numbered `child_id`,
    /// with `handle_count` handles of which the first is valid when `first_handle_valid`.
    pub fn handle_request(
        &self,
        child_id: u64,
        buf: &[u8],
        data_len: usize,
        handle_count: usize,
        first_handle_valid: bool,
    ) -> (res: BootstrapCommand)
        requires
            self.wf(),
            data_len <= buf@.len(),
        ensures
            !child_known(self.children_view(), child_id) || data_len < 16 ==> res is Ignore,
            child_known(self.children_view(), child_id) && data_len >= 16 ==> {
                let req = request_of_bytes(buf@);
                let privileged = child_privileged(self.children_view(), child_id);
                &&& !request_well_formed(buf@, data_len as int) ==> (res matches BootstrapCommand::Reject(s)
                    && s == ResponseStatus::InvalidRequest)
                &&& request_well_formed(buf@, data_len as int) ==> match request_type_of(req.request_type) {
                    RequestType::GetService => res matches BootstrapCommand::GetService(n) && n@ == request_name(
                        buf@,
                    ),
                    RequestType::RegisterProvider => if !privileged {
                        res matches BootstrapCommand::Reject(s) && s == ResponseStatus::PermissionDenied
                    } else if handle_count > 0 && first_handle_valid {
                        res matches BootstrapCommand::RegisterProvider(n) && n@ == request_name(buf@)
                    } else {
                        res matches BootstrapCommand::Reject(s) && s == ResponseStatus::InvalidRequest
                    },
                    RequestType::ListServices => res is ListServices,
                    RequestType::Ping => res is Ping,
                }
            },
    {
        let privileged = match self.child_privilege(child_id) {
            Some(p) => p,
            None => return BootstrapCommand::Ignore,
        };
        if data_len < BootstrapRequest::SIZE {
            return BootstrapCommand::Ignore;
        }
        let request = match BootstrapRequest::from_bytes(buf) {
            Some(r) => r,
            None => return BootstrapCommand::Reject(ResponseStatus::InvalidRequest),
        };
        let name_end: u64 = 16 + request.name_len as u64;
        if (data_len as u64) < name_end {
            return BootstrapCommand::Reject(ResponseStatus::InvalidRequest);
        }
        let name_end = name_end as usize;
        let mut name: Vec<u8> = Vec::new();
        let mut i: usize = 16;
        while i < name_end
            invariant
                16 <= i <= name_end,
                name_end <= buf@.len(),
                name@ == buf@.subrange(16, i as int),
            decreases name_end - i,
        {
            name.push(buf[i]);
            i = i + 1;
            assert(buf@.subrange(16, i as int) =~= buf@.subrange(16, i - 1).push(buf@[i - 1]));
        }
        if !is_utf8(name.as_slice()) {
            return BootstrapCommand::Reject(ResponseStatus::InvalidRequest);
        }
        match request.request_type() {
            RequestType::GetService => BootstrapCommand::GetService(name),
            RequestType::RegisterProvider => {
                if !privileged {
                    BootstrapCommand::Reject(ResponseStatus::PermissionDenied)
                } else if handle_count > 0 && first_handle_valid {
                    BootstrapCommand::RegisterProvider(name)
                } else {
                    BootstrapCommand::Reject(ResponseStatus::InvalidRequest)
                }
            },
            RequestType::ListServices => BootstrapCommand::ListServices,
            RequestType::Ping => BootstrapCommand::Ping,
        }
    }

    /// What answers the child numbered `child_id` asking for the service `name`: nothing when the child is
    /// unknown, [`ResponseStatus::NotFound`] when no service has that name, [`ResponseStatus::PermissionDenied`]
    /// when the service is a system one and the child is not privileged, else a connection to the service.
    pub fn handle_get_service(&self, child_id: u64, name: &[u8]) -> (res: ServiceLookup)
        requires
            self.wf(),
        ensures
            !child_known(self.children_view(), child_id) ==> res == ServiceLookup::Ignore,
            child_known(self.children_view(), child_id) && (forall|i: int|
                0 <= i < self.services_view().len() ==> self.services_view()[i].0 != name@) ==> res
                == ServiceLookup::Reject(ResponseStatus::NotFound),
            forall|i: int|
                child_known(self.children_view(), child_id) && 0 <= i < self.services_view().len()
                    && #[trigger] self.services_view()[i].0 == name@ ==> res == (if self.services_view()[i].1
                    && !child_privileged(self.children_view(), child_id) {
                    ServiceLookup::Reject(ResponseStatus::PermissionDenied)
                } else {
                    ServiceLookup::Connect(i as usize)
                }),
    {
        proof {
            self.lemma_names_distinct();
        }
        let privileged = match self.child_privilege(child_id) {
            Some(p) => p,
            None => return ServiceLookup::Ignore,
        };
        match self.find_service(name) {
            Some(i) => {
                if self.services[i].is_system && !privileged {
                    ServiceLookup::Reject(ResponseStatus::PermissionDenied)
                } else {
                    ServiceLookup::Connect(i)
                }
            },
            None => ServiceLookup::Reject(ResponseStatus::NotFound),
        }
    }

    /// Registers `channel` as the provider of the service `name`, unless a service has that name: the answer
    /// is then [`ResponseStatus::AlreadyExists`] and nothing changes; otherwise the service is added as a
    /// non-system one and the answer is success.
    pub fn handle_register_provider(&mut self, name: Vec<u8>, channel: C) -> (res: ResponseStatus)
        requires
            old(self).wf(),
        ensures
            final(self).wf(),
            final(self).children_view() == old(self).children_view(),
            final(self).child_channels() == old(self).child_channels(),
            final(self).next_id() == old(self).next_id(),
            (exists|i: int| 0 <= i < old(self).services_view().len() && #[trigger] old(self).services_view()[i].0 == name@)
                ==> res == ResponseStatus::AlreadyExists && final(self).services_view() == old(self).services_view()
                && final(self).service_channels() == old(self).service_channels(),
            (forall|i: int| 0 <= i < old(self).services_view().len() ==> old(self).services_view()[i].0 != name@)
                ==> res == ResponseStatus::Success && exists|p: int|
                0 <= p <= old(self).services_view().len() && final(self).services_view() == old(
                    self,
                ).services_view().insert(p, (name@, false)) && final(self).service_channels() == old(
                    self,
                ).service_channels().insert(p, channel),
    {
        match self.find_service(name.as_slice()) {
            Some(_) => ResponseStatus::AlreadyExists,
            None => {
                self.insert_new_service(name, channel, false);
                ResponseStatus::Success
            },
        }
    }

    /// The answer to `ListServices` for the child numbered `child_id`, or `None` when that child is unknown.
    pub fn handle_list_services(&self, child_id: u64) -> (res: Option<Vec<u8>>)
        requires
            self.wf(),
        ensures
            !child_known(self.children_view(), child_id) ==> res is None,
            child_known(self.children_view(), child_id) ==> (res matches Some(v) && v@ == list_message(
                self.services_view(),
            )),
    {
        if self.child_privilege(child_id).is_none() {
            return None;
        }
        let ghost s = self.services_view();
        let ghost names = s.map_values(|e: (Seq<u8>, bool)| e.0);
        let mut data: Vec<u8> = Vec::new();
        push_u32(&mut data, self.services.len() as u32);
        let mut i: usize = 0;
        while i < self.services.len()
            invariant
                i <= self.services@.len(),
                s == self.services_view(),
                names == s.map_values(|e: (Seq<u8>, bool)| e.0),
                data@ == spec_u32_to_le_bytes(s.len() as u32) + list_entries(names.subrange(0, i as int)),
            decreases self.services@.len() - i,
        {
            let name = self.services[i].name.as_slice();
            push_u32(&mut data, name.len() as u32);
            let mut k: usize = 0;
            let ghost before = data@;
            while k < name.len()
                invariant
                    k <= name@.len(),
                    data@ == before + name@.subrange(0, k as int),
                decreases name@.len() - k,
            {
                data.push(name[k]);
                k = k + 1;
                assert(name@.subrange(0, k as int) =~= name@.subrange(0, k - 1).push(name@[k - 1]));
            }
            proof {
                assert(name@.subrange(0, name@.len() as int) =~= name@);
                assert(names[i as int] == name@);
                assert(names.subrange(0, i + 1).drop_last() =~= names.subrange(0, i as int));
                assert(names.subrange(0, i + 1).last() == name@);
            }
            i = i + 1;
        }
        assert(names.subrange(0, i as int) =~= names);
        let mut response = BootstrapResponse::success();
        response.data_len = data.len() as u32;
        let mut out = response.to_bytes();
        let mut k: usize = 0;
        let ghost header = out@;
        while k < data.len()
            invariant
                k <= data@.len(),
                out@ == header + data@.subrange(0, k as int),
            decreases data@.len() - k,
        {
            out.push(data[k]);
            k = k + 1;
            assert(data@.subrange(0, k as int) =~= data@.subrange(0, k - 1).push(data@[k - 1]));
        }
        assert(data@.subrange(0, data@.len() as int) =~= data@);
        Some(out)
    }

    /// The channel of the service at position `index`.
    pub fn service_channel(&self, index: usize) -> (res: &C)
        requires
            index < self.services_view().len(),
        ensures
            *res == self.service_channels()[index as int],
    {
        &self.services[index].channel
    }

    /// The channel of the child numbered `id`, if it is connected.
    pub fn child_channel(&self, id: u64) -> (res: Option<&C>)
        requires
            self.wf(),
        ensures
            res is None <==> !child_known(self.children_view(), id),
            res matches Some(c) ==> *c == self.child_channels()[id],
    {
        broadcast use vstd::std_specs::btree::group_btree_axioms;

        match self.children.get(&id) {
            Some(child) => Some(&child.channel),
            None => None,
        }
    }
}

} // verus!
