//! What the event monitor does with each decoded event: which table changes
//! a start, a rename or a die brings.
use vstd::prelude::*;

use crate::event::{lookup, Event, EventType};
use crate::inspect::ContainerInspect;
use crate::ip::{Cidr, IpAddress};
use crate::names::{derive_names, get_all_names, qualified, qualify, strings_view};
use crate::table::{
    addresses_of, dns_name_valid, add_forward, add_result, add_reverse, remove_forward, remove_reverse, rename_forward,
    rename_result, rename_reverse, AuthorityWrapper, TableError,
};
use crate::text::{host_chars, sanitize, str_equal};

verus! {

/// What an event asks of the monitor.
#[derive(Clone, Copy, Debug, PartialEq, Eq, Structural)]
pub enum EventAction {
    /// A container started: inspect it, then register its names.
    Start,
    /// A container was renamed.
    Rename,
    /// A container died: remove its names.
    Die,
    /// Nothing to do.
    Ignore,
}

/// The action for an event of kind `kind` and action text `action`.
pub open spec fn action_of(kind: EventType, action: Seq<char>) -> EventAction {
    if kind != EventType::Container {
        EventAction::Ignore
    } else if action == "start"@ {
        EventAction::Start
    } else if action == "rename"@ {
        EventAction::Rename
    } else if action == "die"@ {
        EventAction::Die
    } else {
        EventAction::Ignore
    }
}

/// Which action `event` asks for: only container events that start, rename
/// or die count.
pub fn classify(event: &Event) -> (r: EventAction)
    ensures
        r == action_of(event.kind, event.action@),
{
    if event.kind != EventType::Container {
        EventAction::Ignore
    } else if str_equal(event.action.as_str(), "start") {
        EventAction::Start
    } else if str_equal(event.action.as_str(), "rename") {
        EventAction::Rename
    } else if str_equal(event.action.as_str(), "die") {
        EventAction::Die
    } else {
        EventAction::Ignore
    }
}

/// The forward records after adding each name, qualified with `domain`, at `a`.
pub open spec fn names_forward(
    bl: Seq<Cidr>,
    f: Set<(Seq<char>, IpAddress)>,
    names: Seq<Seq<char>>,
    domain: Seq<char>,
    a: IpAddress,
) -> Set<(Seq<char>, IpAddress)>
    decreases names.len(),
{
    if names.len() == 0 {
        f
    } else {
        add_forward(bl, names_forward(bl, f, names.drop_last(), domain, a), qualified(names.last(), domain), a)
    }
}

/// The reverse records after adding each name, qualified with `domain`, at `a`.
pub open spec fn names_reverse(
    bl: Seq<Cidr>,
    r: Set<(Seq<char>, Seq<char>)>,
    names: Seq<Seq<char>>,
    domain: Seq<char>,
    a: IpAddress,
) -> Set<(Seq<char>, Seq<char>)>
    decreases names.len(),
{
    if names.len() == 0 {
        r
    } else {
        add_reverse(bl, names_reverse(bl, r, names.drop_last(), domain, a), qualified(names.last(), domain), a)
    }
}

/// The forward records after a start: every name at every address that
/// parsed, addresses in order.
pub open spec fn start_forward(
    bl: Seq<Cidr>,
    f: Set<(Seq<char>, IpAddress)>,
    names: Seq<Seq<char>>,
    domain: Seq<char>,
    addrs: Seq<Option<IpAddress>>,
) -> Set<(Seq<char>, IpAddress)>
    decreases addrs.len(),
{
    if addrs.len() == 0 {
        f
    } else {
        let before = start_forward(bl, f, names, domain, addrs.drop_last());
        match addrs.last() {
            Some(a) => names_forward(bl, before, names, domain, a),
            None => before,
        }
    }
}

/// The reverse records after a start.
pub open spec fn start_reverse(
    bl: Seq<Cidr>,
    r: Set<(Seq<char>, Seq<char>)>,
    names: Seq<Seq<char>>,
    domain: Seq<char>,
    addrs: Seq<Option<IpAddress>>,
) -> Set<(Seq<char>, Seq<char>)>
    decreases addrs.len(),
{
    if addrs.len() == 0 {
        r
    } else {
        let before = start_reverse(bl, r, names, domain, addrs.drop_last());
        match addrs.last() {
            Some(a) => names_reverse(bl, before, names, domain, a),
            None => before,
        }
    }
}

/// The refusals of adding each name, qualified with `domain`, at `a`: name,
/// address and error, in order.
pub open spec fn names_failures(bl: Seq<Cidr>, names: Seq<Seq<char>>, domain: Seq<char>, a: IpAddress) -> Seq<
    (Seq<char>, IpAddress, TableError),
>
    decreases names.len(),
{
    if names.len() == 0 {
        Seq::empty()
    } else {
        let q = qualified(names.last(), domain);
        names_failures(bl, names.drop_last(), domain, a) + match add_result(bl, q, a) {
            Err(e) => seq![(q, a, e)],
            Ok(_) => Seq::empty(),
        }
    }
}

/// The refusals of a start, addresses in order.
pub open spec fn start_failures(
    bl: Seq<Cidr>,
    names: Seq<Seq<char>>,
    domain: Seq<char>,
    addrs: Seq<Option<IpAddress>>,
) -> Seq<(Seq<char>, IpAddress, TableError)>
    decreases addrs.len(),
{
    if addrs.len() == 0 {
        Seq::empty()
    } else {
        start_failures(bl, names, domain, addrs.drop_last()) + match addrs.last() {
            Some(a) => names_failures(bl, names, domain, a),
            None => Seq::empty(),
        }
    }
}

/// The refusals as (name, address, error) triples.
pub open spec fn failures_view(v: Seq<AddFailure>) -> Seq<(Seq<char>, IpAddress, TableError)> {
    v.map_values(|f: AddFailure| (f.name@, f.address, f.error))
}

/// The forward records after a die: each name, qualified, removed.
pub open spec fn die_forward(f: Set<(Seq<char>, IpAddress)>, names: Seq<Seq<char>>, domain: Seq<char>) -> Set<
    (Seq<char>, IpAddress),
>
    decreases names.len(),
{
    if names.len() == 0 {
        f
    } else {
        remove_forward(die_forward(f, names.drop_last(), domain), qualified(names.last(), domain))
    }
}

/// The reverse records after a die.
pub open spec fn die_reverse(r: Set<(Seq<char>, Seq<char>)>, names: Seq<Seq<char>>, domain: Seq<char>) -> Set<
    (Seq<char>, Seq<char>),
>
    decreases names.len(),
{
    if names.len() == 0 {
        r
    } else {
        remove_reverse(die_reverse(r, names.drop_last(), domain), qualified(names.last(), domain))
    }
}

/// What `remove` answers for `name` on the forward records `f`: the
/// addresses it had, or a refusal of a name that is not a domain name.
pub open spec fn remove_answer(
    answer: Result<Vec<IpAddress>, TableError>,
    f: Set<(Seq<char>, IpAddress)>,
    name: Seq<char>,
) -> bool {
    match answer {
        Ok(v) => dns_name_valid(name) && forall|a: IpAddress|
            v@.contains(a) <==> #[trigger] addresses_of(f, name).contains(a),
        Err(e) => e == TableError::InvalidName && !dns_name_valid(name),
    }
}

/// The names of a rename: the sanitized `oldName` and `name` attributes,
/// qualified with `domain`, when both are present.
pub open spec fn rename_names(attrs: Seq<(Seq<char>, Seq<char>)>, domain: Seq<char>) -> Option<
    (Seq<char>, Seq<char>),
> {
    match (lookup(attrs, "oldName"@), lookup(attrs, "name"@)) {
        (Some(o), Some(n)) => Some((qualified(host_chars(o), domain), qualified(host_chars(n), domain))),
        _ => None,
    }
}

/// A registration that the table refused.
#[derive(Debug)]
pub struct AddFailure {
    pub name: String,
    pub address: IpAddress,
    pub error: TableError,
}

/// What a rename event came to.
#[derive(Debug)]
pub enum RenameOutcome {
    /// The event lacks `oldName` or `name`; nothing was done.
    MissingNames,
    /// The table's answer: whether the old name had an entry, or why it refused.
    Renamed(Result<bool, TableError>),
}

/// Applies container events to the zone table of one base domain.
pub struct Monitor {
    authority_wrapper: AuthorityWrapper,
    domain: String,
}

impl Monitor {
    pub closed spec fn table(&self) -> AuthorityWrapper {
        self.authority_wrapper
    }

    pub closed spec fn domain_view(&self) -> Seq<char> {
        self.domain@
    }

    pub fn new(authority_wrapper: AuthorityWrapper, domain: String) -> (r: Self)
        ensures
            r.table() == authority_wrapper,
            r.domain_view() == domain@,
    {
        Monitor { authority_wrapper, domain }
    }

    /// The zone table.
    pub fn authority(&self) -> (r: &AuthorityWrapper)
        ensures
            *r == self.table(),
    {
        &self.authority_wrapper
    }

    /// A container started. When it runs, each of its names, qualified with
    /// the domain, is added at each address that parsed (`None` stands for an
    /// address that did not, and is skipped). Returns the additions that the
    /// table refused.
    pub fn handle_start(
        &mut self,
        event: &Event,
        container: &ContainerInspect,
        addresses: &Vec<Option<IpAddress>>,
    ) -> (failures: Vec<AddFailure>)
        ensures
            final(self).domain_view() == old(self).domain_view(),
            final(self).table().apex_view() == old(self).table().apex_view(),
            final(self).table().blacklist_view() == old(self).table().blacklist_view(),
            !container.state.running ==> final(self).table() == old(self).table(),
            container.state.running ==> final(self).table().forward_view() == start_forward(
                old(self).table().blacklist_view(),
                old(self).table().forward_view(),
                derive_names(event.actor.attrs()),
                old(self).domain_view(),
                addresses@,
            ),
            container.state.running ==> final(self).table().reverse_view() == start_reverse(
                old(self).table().blacklist_view(),
                old(self).table().reverse_view(),
                derive_names(event.actor.attrs()),
                old(self).domain_view(),
                addresses@,
            ),
            !container.state.running ==> failures@.len() == 0,
            container.state.running ==> failures_view(failures@) == start_failures(
                old(self).table().blacklist_view(),
                derive_names(event.actor.attrs()),
                old(self).domain_view(),
                addresses@,
            ),
    {
        let mut failures: Vec<AddFailure> = Vec::new();
        if !container.state.running {
            return failures;
        }
        assert(failures_view(failures@) =~= Seq::empty());
        let names = get_all_names(event);
        let ghost ns = strings_view(names@);
        let ghost bl = self.authority_wrapper.blacklist_view();
        let ghost f0 = self.authority_wrapper.forward_view();
        let ghost r0 = self.authority_wrapper.reverse_view();
        let ghost d = self.domain@;
        let mut i: usize = 0;
        while i < addresses.len()
            invariant
                i <= addresses@.len(),
                self.domain@ == d,
                self.authority_wrapper.blacklist_view() == bl,
                self.authority_wrapper.apex_view() == old(self).authority_wrapper.apex_view(),
                ns == strings_view(names@),
                self.authority_wrapper.forward_view() == start_forward(
                    bl,
                    f0,
                    ns,
                    d,
                    addresses@.subrange(0, i as int),
                ),
                self.authority_wrapper.reverse_view() == start_reverse(
                    bl,
                    r0,
                    ns,
                    d,
                    addresses@.subrange(0, i as int),
                ),
                failures_view(failures@) == start_failures(bl, ns, d, addresses@.subrange(0, i as int)),
            decreases addresses@.len() - i,
        {
            assert(addresses@.subrange(0, i + 1).drop_last() =~= addresses@.subrange(0, i as int));
            if let Some(a) = addresses[i] {
                let ghost f1 = self.authority_wrapper.forward_view();
                let ghost r1 = self.authority_wrapper.reverse_view();
                let ghost base = failures_view(failures@);
                let mut j: usize = 0;
                assert(base + names_failures(bl, ns.subrange(0, 0), d, a) =~= base);
                while j < names.len()
                    invariant
                        j <= names@.len(),
                                self.domain@ == d,
                        self.authority_wrapper.blacklist_view() == bl,
                        self.authority_wrapper.apex_view() == old(self).authority_wrapper.apex_view(),
                        ns == strings_view(names@),
                        self.authority_wrapper.forward_view() == names_forward(
                            bl,
                            f1,
                            ns.subrange(0, j as int),
                            d,
                            a,
                        ),
                        self.authority_wrapper.reverse_view() == names_reverse(
                            bl,
                            r1,
                            ns.subrange(0, j as int),
                            d,
                            a,
                        ),
                        failures_view(failures@) == base + names_failures(
                            bl,
                            ns.subrange(0, j as int),
                            d,
                            a,
                        ),
                    decreases names@.len() - j,
                {
                    assert(ns.subrange(0, j + 1).drop_last() =~= ns.subrange(0, j as int));
                    let full = qualify(names[j].as_str(), self.domain.as_str());
                    let copy = qualify(names[j].as_str(), self.domain.as_str());
                    let ghost before = failures_view(failures@);
                    if let Err(error) = self.authority_wrapper.add(full, a) {
                        failures.push(AddFailure { name: copy, address: a, error });
                        assert(failures_view(failures@) =~= before.push((copy@, a, error)));
                    } else {
                        assert(failures_view(failures@) =~= before);
                    }
                    proof {
                        let q = qualified(ns[j as int], d);
                        assert(ns.subrange(0, j + 1).last() == ns[j as int]);
                        let tail = match add_result(bl, q, a) {
                            Err(e) => seq![(q, a, e)],
                            Ok(_) => Seq::<(Seq<char>, IpAddress, TableError)>::empty(),
                        };
                        assert(base + (names_failures(bl, ns.subrange(0, j as int), d, a) + tail)
                            =~= (base + names_failures(bl, ns.subrange(0, j as int), d, a)) + tail);
                    }
                    j = j + 1;
                }
                assert(ns.subrange(0, names@.len() as int) =~= ns);
            } else {
                assert(failures_view(failures@) =~= failures_view(failures@) + Seq::<
                    (Seq<char>, IpAddress, TableError),
                >::empty());
            }
            i = i + 1;
        }
        assert(addresses@.subrange(0, addresses@.len() as int) =~= addresses@);
        failures
    }

    /// A container was renamed: its sanitized `oldName` moves to its
    /// sanitized `name`, both qualified with the domain. Without either
    /// attribute nothing is done.
    pub fn handle_rename(&mut self, event: &Event) -> (r: RenameOutcome)
        ensures
            final(self).domain_view() == old(self).domain_view(),
            final(self).table().apex_view() == old(self).table().apex_view(),
            final(self).table().blacklist_view() == old(self).table().blacklist_view(),
            match rename_names(event.actor.attrs(), old(self).domain_view()) {
                None => r is MissingNames && final(self).table() == old(self).table(),
                Some((o, n)) => r == RenameOutcome::Renamed(
                    rename_result(old(self).table().forward_view(), o, n),
                ) && final(self).table().forward_view() == rename_forward(
                    old(self).table().forward_view(),
                    o,
                    n,
                ) && final(self).table().reverse_view() == rename_reverse(
                    old(self).table().forward_view(),
                    old(self).table().reverse_view(),
                    o,
                    n,
                ),
            },
    {
        let old_attr = event.actor.attribute("oldName");
        let new_attr = event.actor.attribute("name");
        match (old_attr, new_attr) {
            (Some(o), Some(n)) => {
                let old_name = qualify(sanitize(o.as_str()).as_str(), self.domain.as_str());
                let new_name = qualify(sanitize(n.as_str()).as_str(), self.domain.as_str());
                RenameOutcome::Renamed(
                    self.authority_wrapper.rename(old_name.as_str(), new_name.as_str()),
                )
            },
            _ => RenameOutcome::MissingNames,
        }
    }

    /// A container died: each of its names, qualified with the domain, is
    /// removed. Returns, for each name, what the table answered.
    pub fn handle_die(&mut self, event: &Event) -> (r: Vec<(String, Result<Vec<IpAddress>, TableError>)>)
        ensures
            final(self).domain_view() == old(self).domain_view(),
            final(self).table().apex_view() == old(self).table().apex_view(),
            final(self).table().blacklist_view() == old(self).table().blacklist_view(),
            final(self).table().forward_view() == die_forward(
                old(self).table().forward_view(),
                derive_names(event.actor.attrs()),
                old(self).domain_view(),
            ),
            final(self).table().reverse_view() == die_reverse(
                old(self).table().reverse_view(),
                derive_names(event.actor.attrs()),
                old(self).domain_view(),
            ),
            r@.len() == derive_names(event.actor.attrs()).len(),
            forall|k: int|
                0 <= k < r@.len() ==> (#[trigger] r@[k]).0@ == qualified(
                    derive_names(event.actor.attrs())[k],
                    old(self).domain_view(),
                ) && remove_answer(
                    r@[k].1,
                    die_forward(
                        old(self).table().forward_view(),
                        derive_names(event.actor.attrs()).subrange(0, k),
                        old(self).domain_view(),
                    ),
                    r@[k].0@,
                ),
    {
        let names = get_all_names(event);
        let ghost ns = strings_view(names@);
        let ghost f0 = self.authority_wrapper.forward_view();
        let ghost r0 = self.authority_wrapper.reverse_view();
        let ghost d = self.domain@;
        let mut r: Vec<(String, Result<Vec<IpAddress>, TableError>)> = Vec::new();
        let mut j: usize = 0;
        while j < names.len()
            invariant
                j <= names@.len(),
                self.domain@ == d,
                self.authority_wrapper.blacklist_view() == old(self).authority_wrapper.blacklist_view(),
                self.authority_wrapper.apex_view() == old(self).authority_wrapper.apex_view(),
                ns == strings_view(names@),
                self.authority_wrapper.forward_view() == die_forward(f0, ns.subrange(0, j as int), d),
                self.authority_wrapper.reverse_view() == die_reverse(r0, ns.subrange(0, j as int), d),
                r@.len() == j,
                forall|k: int|
                    0 <= k < j ==> (#[trigger] r@[k]).0@ == qualified(ns[k], d) && remove_answer(
                        r@[k].1,
                        die_forward(f0, ns.subrange(0, k), d),
                        r@[k].0@,
                    ),
            decreases names@.len() - j,
        {
            assert(ns.subrange(0, j + 1).drop_last() =~= ns.subrange(0, j as int));
            let full = qualify(names[j].as_str(), self.domain.as_str());
            let answer = self.authority_wrapper.remove(full.as_str());
            assert(remove_answer(answer, die_forward(f0, ns.subrange(0, j as int), d), full@));
            r.push((full, answer));
            j = j + 1;
        }
        assert(ns.subrange(0, names@.len() as int) =~= ns);
        r
    }
}

} // verus!
