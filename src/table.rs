//! The dynamic DNS zone: forward records from names to addresses, reverse
//! (PTR) records from reverse-lookup names back to names, and the ranges of
//! addresses that are never registered.
use vstd::prelude::*;

use crate::ip::{blacklisted, is_blacklisted, reverse_lookup_name, reverse_name, Cidr, IpAddress};
use crate::text::{push_char, push_str, str_equal};
use vstd::string::StrSliceExecFns;

verus! {

/// Whether hickory accepts the text as a domain name.
pub uninterp spec fn dns_name_valid(s: Seq<char>) -> bool;

/// Relies on hickory's `Name::from_str` (relaxed parsing, UTF-8 then ASCII):
/// whether `s` parses as a domain name. The answer depends on the text alone.
#[verifier::external_body]
fn parses_as_name(s: &str) -> (r: bool)
    ensures
        r == dns_name_valid(s@),
{
    s.parse::<hickory_server::proto::rr::Name>().is_ok()
}

/// Why the table refused a change.
#[derive(Clone, Copy, Debug, PartialEq, Eq, Structural)]
pub enum TableError {
    /// The address lies in a blacklisted range.
    Blacklisted,
    /// The name is not a domain name.
    InvalidName,
}

/// The forward records that a vector holds, as (name, address) pairs.
pub open spec fn forward_set(v: Seq<(String, IpAddress)>) -> Set<(Seq<char>, IpAddress)> {
    Set::new(
        |r: (Seq<char>, IpAddress)|
            exists|i: int| 0 <= i < v.len() && (#[trigger] v[i]).0@ == r.0 && v[i].1 == r.1,
    )
}

/// The reverse records that a vector holds, as (reverse name, target) pairs.
pub open spec fn reverse_set(v: Seq<(String, String)>) -> Set<(Seq<char>, Seq<char>)> {
    Set::new(
        |r: (Seq<char>, Seq<char>)|
            exists|i: int| 0 <= i < v.len() && (#[trigger] v[i]).0@ == r.0 && v[i].1@ == r.1,
    )
}

/// The addresses that `forward` gives for `name`.
pub open spec fn addresses_of(forward: Set<(Seq<char>, IpAddress)>, name: Seq<char>) -> Set<IpAddress> {
    Set::new(|a: IpAddress| forward.contains((name, a)))
}

/// The name under which `add` stores `name`: a leading `.` makes it a
/// wildcard, `*` followed by the name.
pub open spec fn stored_name(name: Seq<char>) -> Seq<char> {
    if name.len() > 0 && name[0] == '.' {
        seq!['*'] + name
    } else {
        name
    }
}

/// `name` without one leading `/`.
pub open spec fn strip_slash(name: Seq<char>) -> Seq<char> {
    if name.len() > 0 && name[0] == '/' {
        name.drop_first()
    } else {
        name
    }
}

/// What `add` returns.
pub open spec fn add_result(blacklist: Seq<Cidr>, name: Seq<char>, a: IpAddress) -> Result<(), TableError> {
    if blacklisted(blacklist, a) {
        Err(TableError::Blacklisted)
    } else if !dns_name_valid(stored_name(name)) {
        Err(TableError::InvalidName)
    } else {
        Ok(())
    }
}

/// The forward records after `add`.
pub open spec fn add_forward(
    blacklist: Seq<Cidr>,
    forward: Set<(Seq<char>, IpAddress)>,
    name: Seq<char>,
    a: IpAddress,
) -> Set<(Seq<char>, IpAddress)> {
    if add_result(blacklist, name, a) is Ok {
        forward.insert((stored_name(name), a))
    } else {
        forward
    }
}

/// The reverse records after `add`.
pub open spec fn add_reverse(
    blacklist: Seq<Cidr>,
    reverse: Set<(Seq<char>, Seq<char>)>,
    name: Seq<char>,
    a: IpAddress,
) -> Set<(Seq<char>, Seq<char>)> {
    if add_result(blacklist, name, a) is Ok {
        reverse.insert((reverse_name(a), stored_name(name)))
    } else {
        reverse
    }
}

/// The forward records after `remove`: none left under `name`.
pub open spec fn remove_forward(forward: Set<(Seq<char>, IpAddress)>, name: Seq<char>) -> Set<
    (Seq<char>, IpAddress),
> {
    if dns_name_valid(name) {
        forward.filter(|r: (Seq<char>, IpAddress)| r.0 != name)
    } else {
        forward
    }
}

/// The reverse records after `remove`: none left that point at `name`.
pub open spec fn remove_reverse(reverse: Set<(Seq<char>, Seq<char>)>, name: Seq<char>) -> Set<
    (Seq<char>, Seq<char>),
> {
    if dns_name_valid(name) {
        reverse.filter(|r: (Seq<char>, Seq<char>)| r.1 != name)
    } else {
        reverse
    }
}

/// What `rename` returns: whether records were moved, or why it refused.
pub open spec fn rename_result(
    forward: Set<(Seq<char>, IpAddress)>,
    old_name: Seq<char>,
    new_name: Seq<char>,
) -> Result<bool, TableError> {
    if addresses_of(forward, strip_slash(old_name)).is_empty() {
        Ok(false)
    } else if !dns_name_valid(new_name) {
        Err(TableError::InvalidName)
    } else {
        Ok(true)
    }
}

/// The forward records after `rename`: the addresses of the old name now
/// stand, alone, under the new name.
pub open spec fn rename_forward(
    forward: Set<(Seq<char>, IpAddress)>,
    old_name: Seq<char>,
    new_name: Seq<char>,
) -> Set<(Seq<char>, IpAddress)> {
    let old = strip_slash(old_name);
    if rename_result(forward, old_name, new_name) == Ok::<bool, TableError>(true) {
        forward.filter(|r: (Seq<char>, IpAddress)| r.0 != old && r.0 != new_name).union(
            Set::new(
                |r: (Seq<char>, IpAddress)| r.0 == new_name && forward.contains((old, r.1)),
            ),
        )
    } else {
        forward
    }
}

/// The reverse records after `rename`: those that pointed at the old name
/// are gone, and each moved address points at the new name.
pub open spec fn rename_reverse(
    forward: Set<(Seq<char>, IpAddress)>,
    reverse: Set<(Seq<char>, Seq<char>)>,
    old_name: Seq<char>,
    new_name: Seq<char>,
) -> Set<(Seq<char>, Seq<char>)> {
    let old = strip_slash(old_name);
    if rename_result(forward, old_name, new_name) == Ok::<bool, TableError>(true) {
        reverse.filter(|r: (Seq<char>, Seq<char>)| r.1 != old).union(
            Set::new(
                |r: (Seq<char>, Seq<char>)|
                    r.1 == new_name && exists|a: IpAddress|
                        forward.contains((old, a)) && r.0 == #[trigger] reverse_name(a),
            ),
        )
    } else {
        reverse
    }
}

proof fn lemma_forward_push(v: Seq<(String, IpAddress)>, e: (String, IpAddress))
    ensures
        forward_set(v.push(e)) == forward_set(v).insert((e.0@, e.1)),
{
    let w = v.push(e);
    assert forall|r: (Seq<char>, IpAddress)| #[trigger]
        forward_set(w).contains(r) == forward_set(v).insert((e.0@, e.1)).contains(r) by {
        if forward_set(w).contains(r) {
            let i = choose|i: int| 0 <= i < w.len() && (#[trigger] w[i]).0@ == r.0 && w[i].1 == r.1;
            if i < v.len() {
                assert(v[i] == w[i]);
            }
        }
        if forward_set(v).contains(r) {
            let i = choose|i: int| 0 <= i < v.len() && (#[trigger] v[i]).0@ == r.0 && v[i].1 == r.1;
            assert(w[i] == v[i]);
        }
        if r == (e.0@, e.1) {
            assert(w[v.len() as int] == e);
        }
    }
    assert(forward_set(w) =~= forward_set(v).insert((e.0@, e.1)));
}

proof fn lemma_reverse_push(v: Seq<(String, String)>, e: (String, String))
    ensures
        reverse_set(v.push(e)) == reverse_set(v).insert((e.0@, e.1@)),
{
    let w = v.push(e);
    assert forall|r: (Seq<char>, Seq<char>)| #[trigger]
        reverse_set(w).contains(r) == reverse_set(v).insert((e.0@, e.1@)).contains(r) by {
        if reverse_set(w).contains(r) {
            let i = choose|i: int| 0 <= i < w.len() && (#[trigger] w[i]).0@ == r.0 && w[i].1@ == r.1;
            if i < v.len() {
                assert(v[i] == w[i]);
            }
        }
        if reverse_set(v).contains(r) {
            let i = choose|i: int| 0 <= i < v.len() && (#[trigger] v[i]).0@ == r.0 && v[i].1@ == r.1;
            assert(w[i] == v[i]);
        }
        if r == (e.0@, e.1@) {
            assert(w[v.len() as int] == e);
        }
    }
    assert(reverse_set(w) =~= reverse_set(v).insert((e.0@, e.1@)));
}

/// Adds a forward record unless it is there already.
fn forward_insert(v: &mut Vec<(String, IpAddress)>, name: &str, a: IpAddress)
    ensures
        forward_set(final(v)@) == forward_set(old(v)@).insert((name@, a)),
{
    let mut i: usize = 0;
    while i < v.len()
        invariant
            i <= v@.len(),
            v@ == old(v)@,
        decreases v@.len() - i,
    {
        if v[i].1 == a && str_equal(v[i].0.as_str(), name) {
            assert(forward_set(v@).contains((name@, a)));
            assert(forward_set(v@).insert((name@, a)) =~= forward_set(v@));
            return;
        }
        i = i + 1;
    }
    let mut s = String::new();
    push_str(&mut s, name);
    proof {
        lemma_forward_push(v@, (s, a));
    }
    v.push((s, a));
}

/// Adds a reverse record unless it is there already.
fn reverse_insert(v: &mut Vec<(String, String)>, ptr: &str, target: &str)
    ensures
        reverse_set(final(v)@) == reverse_set(old(v)@).insert((ptr@, target@)),
{
    let mut i: usize = 0;
    while i < v.len()
        invariant
            i <= v@.len(),
            v@ == old(v)@,
        decreases v@.len() - i,
    {
        if str_equal(v[i].0.as_str(), ptr) && str_equal(v[i].1.as_str(), target) {
            assert(reverse_set(v@).contains((ptr@, target@)));
            assert(reverse_set(v@).insert((ptr@, target@)) =~= reverse_set(v@));
            return;
        }
        i = i + 1;
    }
    let mut p = String::new();
    push_str(&mut p, ptr);
    let mut t = String::new();
    push_str(&mut t, target);
    proof {
        lemma_reverse_push(v@, (p, t));
    }
    v.push((p, t));
}


/// The forward records of `v` that are not under `name`.
fn forward_without(v: &Vec<(String, IpAddress)>, name: &str) -> (r: Vec<(String, IpAddress)>)
    ensures
        forward_set(r@) == forward_set(v@).filter(|e: (Seq<char>, IpAddress)| e.0 != name@),
{
    let mut out: Vec<(String, IpAddress)> = Vec::new();
    let mut i: usize = 0;
    proof {
        assert(forward_set(out@) =~= forward_set(v@.subrange(0, 0)).filter(
            |e: (Seq<char>, IpAddress)| e.0 != name@,
        ));
    }
    while i < v.len()
        invariant
            i <= v@.len(),
            forward_set(out@) == forward_set(v@.subrange(0, i as int)).filter(
                |e: (Seq<char>, IpAddress)| e.0 != name@,
            ),
        decreases v@.len() - i,
    {
        let ghost before = out@;
        proof {
            assert(v@.subrange(0, i + 1) =~= v@.subrange(0, i as int).push(v@[i as int]));
            lemma_forward_push(v@.subrange(0, i as int), v@[i as int]);
        }
        if !str_equal(v[i].0.as_str(), name) {
            let mut s = String::new();
            push_str(&mut s, v[i].0.as_str());
            proof {
                lemma_forward_push(before, (s, v@[i as int].1));
            }
            out.push((s, v[i].1));
            assert(forward_set(out@) =~= forward_set(v@.subrange(0, i + 1)).filter(
                |e: (Seq<char>, IpAddress)| e.0 != name@,
            ));
        } else {
            assert(forward_set(out@) =~= forward_set(v@.subrange(0, i + 1)).filter(
                |e: (Seq<char>, IpAddress)| e.0 != name@,
            ));
        }
        i = i + 1;
    }
    assert(v@.subrange(0, v@.len() as int) =~= v@);
    out
}

/// The reverse records of `v` that do not point at `target`.
fn reverse_without_target(v: &Vec<(String, String)>, target: &str) -> (r: Vec<(String, String)>)
    ensures
        reverse_set(r@) == reverse_set(v@).filter(|e: (Seq<char>, Seq<char>)| e.1 != target@),
{
    let mut out: Vec<(String, String)> = Vec::new();
    let mut i: usize = 0;
    proof {
        assert(reverse_set(out@) =~= reverse_set(v@.subrange(0, 0)).filter(
            |e: (Seq<char>, Seq<char>)| e.1 != target@,
        ));
    }
    while i < v.len()
        invariant
            i <= v@.len(),
            reverse_set(out@) == reverse_set(v@.subrange(0, i as int)).filter(
                |e: (Seq<char>, Seq<char>)| e.1 != target@,
            ),
        decreases v@.len() - i,
    {
        let ghost before = out@;
        proof {
            assert(v@.subrange(0, i + 1) =~= v@.subrange(0, i as int).push(v@[i as int]));
            lemma_reverse_push(v@.subrange(0, i as int), v@[i as int]);
        }
        if !str_equal(v[i].1.as_str(), target) {
            let mut p = String::new();
            push_str(&mut p, v[i].0.as_str());
            let mut t = String::new();
            push_str(&mut t, v[i].1.as_str());
            proof {
                lemma_reverse_push(before, (p, t));
            }
            out.push((p, t));
            assert(reverse_set(out@) =~= reverse_set(v@.subrange(0, i + 1)).filter(
                |e: (Seq<char>, Seq<char>)| e.1 != target@,
            ));
        } else {
            assert(reverse_set(out@) =~= reverse_set(v@.subrange(0, i + 1)).filter(
                |e: (Seq<char>, Seq<char>)| e.1 != target@,
            ));
        }
        i = i + 1;
    }
    assert(v@.subrange(0, v@.len() as int) =~= v@);
    out
}

/// The addresses that `v` holds under `name`.
fn forward_addresses(v: &Vec<(String, IpAddress)>, name: &str) -> (r: Vec<IpAddress>)
    ensures
        forall|a: IpAddress|
            r@.contains(a) <==> #[trigger] forward_set(v@).contains((name@, a)),
{
    let mut out: Vec<IpAddress> = Vec::new();
    let mut i: usize = 0;
    while i < v.len()
        invariant
            i <= v@.len(),
            forall|a: IpAddress|
                out@.contains(a) <==> exists|k: int|
                    0 <= k < i && (#[trigger] v@[k]).0@ == name@ && v@[k].1 == a,
        decreases v@.len() - i,
    {
        if str_equal(v[i].0.as_str(), name) {
            let ghost before = out@;
            out.push(v[i].1);
            proof {
                assert forall|a: IpAddress|
                    out@.contains(a) <==> exists|k: int|
                        0 <= k < i + 1 && (#[trigger] v@[k]).0@ == name@ && v@[k].1 == a by {
                    if out@.contains(a) && a != v@[i as int].1 {
                        let j = choose|j: int| 0 <= j < out@.len() && out@[j] == a;
                        assert(before[j] == a);
                        assert(before.contains(a));
                    }
                    if a == v@[i as int].1 {
                        assert(out@[before.len() as int] == a);
                    }
                    if exists|k: int| 0 <= k < i + 1 && (#[trigger] v@[k]).0@ == name@ && v@[k].1 == a {
                        let k = choose|k: int|
                            0 <= k < i + 1 && (#[trigger] v@[k]).0@ == name@ && v@[k].1 == a;
                        if k < i {
                            assert(before.contains(a));
                            let j = choose|j: int| 0 <= j < before.len() && before[j] == a;
                            assert(out@[j] == a);
                        } else {
                            assert(out@[before.len() as int] == a);
                        }
                    }
                }
            }
        } else {
            proof {
                assert forall|a: IpAddress|
                    out@.contains(a) <==> exists|k: int|
                        0 <= k < i + 1 && (#[trigger] v@[k]).0@ == name@ && v@[k].1 == a by {
                    if exists|k: int| 0 <= k < i + 1 && (#[trigger] v@[k]).0@ == name@ && v@[k].1 == a {
                        let k = choose|k: int| 0 <= k < i + 1 && (#[trigger] v@[k]).0@ == name@ && v@[k].1 == a;
                        assert(k < i);
                    }
                }
            }
        }
        i = i + 1;
    }
    out
}


/// Every forward record stands under a domain name.
pub open spec fn names_valid(forward: Set<(Seq<char>, IpAddress)>) -> bool {
    forall|r: (Seq<char>, IpAddress)| #[trigger] forward.contains(r) ==> dns_name_valid(r.0)
}

/// The record table of one zone. The zone's apex (its SOA record) is fixed
/// when the table is made and never removed.
pub struct AuthorityWrapper {
    domain: String,
    network_blacklist: Vec<Cidr>,
    forward: Vec<(String, IpAddress)>,
    reverse: Vec<(String, String)>,
}

impl AuthorityWrapper {
    /// The zone's apex name.
    pub closed spec fn apex_view(&self) -> Seq<char> {
        self.domain@
    }

    /// The ranges whose addresses are never registered.
    pub closed spec fn blacklist_view(&self) -> Seq<Cidr> {
        self.network_blacklist@
    }

    /// The forward records, as (name, address) pairs.
    pub closed spec fn forward_view(&self) -> Set<(Seq<char>, IpAddress)> {
        forward_set(self.forward@)
    }

    /// The reverse records, as (reverse name, target name) pairs.
    pub closed spec fn reverse_view(&self) -> Set<(Seq<char>, Seq<char>)> {
        reverse_set(self.reverse@)
    }

    /// Every forward record stands under a domain name.
    #[verifier::type_invariant]
    closed spec fn inv(&self) -> bool {
        names_valid(forward_set(self.forward@))
    }

    /// An empty zone for `domain`, refusing addresses in `network_blacklist`.
    pub fn new(domain: String, network_blacklist: Vec<Cidr>) -> (r: Self)
        ensures
            names_valid(r.forward_view()),
            r.apex_view() == domain@,
            r.blacklist_view() == network_blacklist@,
            r.forward_view().is_empty(),
            r.reverse_view().is_empty(),
    {
        let r = AuthorityWrapper { domain, network_blacklist, forward: Vec::new(), reverse: Vec::new() };
        assert(r.forward_view() =~= Set::empty());
        assert(r.reverse_view() =~= Set::empty());
        r
    }

    /// The zone's apex name.
    pub fn apex(&self) -> (r: &String)
        ensures
            r@ == self.apex_view(),
    {
        &self.domain
    }

    /// All forward records.
    pub fn forward_records(&self) -> (r: &Vec<(String, IpAddress)>)
        ensures
            forward_set(r@) == self.forward_view(),
    {
        &self.forward
    }

    /// All reverse records.
    pub fn reverse_records(&self) -> (r: &Vec<(String, String)>)
        ensures
            reverse_set(r@) == self.reverse_view(),
    {
        &self.reverse
    }

    /// The addresses stored under `name`.
    pub fn lookup(&self, name: &str) -> (r: Vec<IpAddress>)
        ensures
            forall|a: IpAddress| r@.contains(a) <==> #[trigger] addresses_of(self.forward_view(), name@).contains(a),
    {
        forward_addresses(&self.forward, name)
    }

    /// Registers `name` at `address`: a forward record, and a reverse record
    /// from the address back to the name. A name that starts with `.` is
    /// stored as a wildcard. Refused, with nothing changed, when the address
    /// is blacklisted or the name is not a domain name.
    pub fn add(&mut self, name: String, address: IpAddress) -> (r: Result<(), TableError>)
        ensures
            names_valid(final(self).forward_view()),
            r == add_result(old(self).blacklist_view(), name@, address),
            final(self).forward_view() == add_forward(
                old(self).blacklist_view(),
                old(self).forward_view(),
                name@,
                address,
            ),
            final(self).reverse_view() == add_reverse(
                old(self).blacklist_view(),
                old(self).reverse_view(),
                name@,
                address,
            ),
            final(self).blacklist_view() == old(self).blacklist_view(),
            final(self).apex_view() == old(self).apex_view(),
    {
        proof {
            use_type_invariant(&*self);
        }
        if is_blacklisted(&self.network_blacklist, &address) {
            return Err(TableError::Blacklisted);
        }
        let mut stored = String::new();
        if name.as_str().unicode_len() > 0 && name.as_str().get_char(0) == '.' {
            push_char(&mut stored, '*');
        }
        push_str(&mut stored, name.as_str());
        assert(stored@ =~= stored_name(name@));
        if !parses_as_name(stored.as_str()) {
            return Err(TableError::InvalidName);
        }
        let mut forward: Vec<(String, IpAddress)> = Vec::new();
        std::mem::swap(&mut forward, &mut self.forward);
        forward_insert(&mut forward, stored.as_str(), address);
        self.forward = forward;
        let mut reverse: Vec<(String, String)> = Vec::new();
        std::mem::swap(&mut reverse, &mut self.reverse);
        let ptr = reverse_lookup_name(&address);
        reverse_insert(&mut reverse, ptr.as_str(), stored.as_str());
        self.reverse = reverse;
        Ok(())
    }

    /// Removes every forward record under `name`, and every reverse record
    /// that points at it. Returns the addresses that were removed (none when
    /// the name had no entry); refused when `name` is not a domain name.
    pub fn remove(&mut self, name: &str) -> (r: Result<Vec<IpAddress>, TableError>)
        ensures
            names_valid(final(self).forward_view()),
            r is Err <==> !dns_name_valid(name@),
            r is Err ==> r == Err::<Vec<IpAddress>, TableError>(TableError::InvalidName),
            r matches Ok(v) ==> forall|a: IpAddress|
                v@.contains(a) <==> #[trigger] addresses_of(old(self).forward_view(), name@).contains(a),
            final(self).forward_view() == remove_forward(old(self).forward_view(), name@),
            final(self).reverse_view() == remove_reverse(old(self).reverse_view(), name@),
            final(self).blacklist_view() == old(self).blacklist_view(),
            final(self).apex_view() == old(self).apex_view(),
    {
        proof {
            use_type_invariant(&*self);
        }
        if !parses_as_name(name) {
            return Err(TableError::InvalidName);
        }
        let removed = forward_addresses(&self.forward, name);
        let forward = forward_without(&self.forward, name);
        let reverse = reverse_without_target(&self.reverse, name);
        self.forward = forward;
        self.reverse = reverse;
        Ok(removed)
    }

    /// Moves the addresses of `old_name` (without one leading `/`) to
    /// `new_name`, replacing what `new_name` had, and points their reverse
    /// records at `new_name`. `Ok(false)`, with nothing changed, when
    /// `old_name` has no entry; refused when `new_name` is not a domain name.
    pub fn rename(&mut self, old_name: &str, new_name: &str) -> (r: Result<bool, TableError>)
        ensures
            names_valid(final(self).forward_view()),
            r == rename_result(old(self).forward_view(), old_name@, new_name@),
            final(self).forward_view() == rename_forward(
                old(self).forward_view(),
                old_name@,
                new_name@,
            ),
            final(self).reverse_view() == rename_reverse(
                old(self).forward_view(),
                old(self).reverse_view(),
                old_name@,
                new_name@,
            ),
            final(self).blacklist_view() == old(self).blacklist_view(),
            final(self).apex_view() == old(self).apex_view(),
    {
        proof {
            use_type_invariant(&*self);
        }
        let n = old_name.unicode_len();
        let old = if n > 0 && old_name.get_char(0) == '/' {
            old_name.substring_char(1, n)
        } else {
            old_name
        };
        assert(old@ =~= strip_slash(old_name@));
        let ghost f0 = self.forward_view();
        let ghost r0 = self.reverse_view();
        let moved = forward_addresses(&self.forward, old);
        if moved.len() == 0 {
            assert(addresses_of(f0, old@) =~= Set::empty());
            return Ok(false);
        }
        assert(addresses_of(f0, old@).contains(moved@[0]));
        if !parses_as_name(new_name) {
            return Err(TableError::InvalidName);
        }
        let first = forward_without(&self.forward, old);
        let mut forward = forward_without(&first, new_name);
        let mut reverse = reverse_without_target(&self.reverse, old);
        let ghost base_f = forward_set(forward@);
        let ghost base_r = reverse_set(reverse@);
        let mut j: usize = 0;
        while j < moved.len()
            invariant
                j <= moved@.len(),
                forward_set(forward@) == base_f.union(
                    Set::new(
                        |e: (Seq<char>, IpAddress)|
                            e.0 == new_name@ && exists|k: int| 0 <= k < j && moved@[k] == e.1,
                    ),
                ),
                reverse_set(reverse@) == base_r.union(
                    Set::new(
                        |e: (Seq<char>, Seq<char>)|
                            e.1 == new_name@ && exists|k: int|
                                0 <= k < j && e.0 == reverse_name(#[trigger] moved@[k]),
                    ),
                ),
            decreases moved@.len() - j,
        {
            let a = moved[j];
            forward_insert(&mut forward, new_name, a);
            let ptr = reverse_lookup_name(&a);
            reverse_insert(&mut reverse, ptr.as_str(), new_name);
            proof {
                assert(forward_set(forward@) =~= base_f.union(
                    Set::new(
                        |e: (Seq<char>, IpAddress)|
                            e.0 == new_name@ && exists|k: int| 0 <= k < j + 1 && moved@[k] == e.1,
                    ),
                )) by {
                    assert forall|e: (Seq<char>, IpAddress)|
                        e.0 == new_name@ && (exists|k: int| 0 <= k < j + 1 && moved@[k] == e.1)
                            implies (exists|k: int| 0 <= k < j && moved@[k] == e.1) || e == (
                        new_name@,
                        a,
                    ) by {
                        let k = choose|k: int| 0 <= k < j + 1 && moved@[k] == e.1;
                        if k == j {
                            assert(e == (new_name@, a));
                        }
                    }
                    assert(moved@[j as int] == a);
                }
                assert(reverse_set(reverse@) =~= base_r.union(
                    Set::new(
                        |e: (Seq<char>, Seq<char>)|
                            e.1 == new_name@ && exists|k: int|
                                0 <= k < j + 1 && e.0 == reverse_name(#[trigger] moved@[k]),
                    ),
                )) by {
                    assert forall|e: (Seq<char>, Seq<char>)|
                        e.1 == new_name@ && (exists|k: int|
                            0 <= k < j + 1 && e.0 == reverse_name(#[trigger] moved@[k])) implies (exists|k: int|
                            0 <= k < j && e.0 == reverse_name(#[trigger] moved@[k])) || e == (
                        reverse_name(a),
                        new_name@,
                    ) by {
                        let k = choose|k: int|
                            0 <= k < j + 1 && e.0 == reverse_name(#[trigger] moved@[k]);
                        if k == j {
                            assert(e == (reverse_name(a), new_name@));
                        }
                    }
                    assert(moved@[j as int] == a);
                }
            }
            j = j + 1;
        }
        proof {
            assert(forward_set(forward@) =~= rename_forward(f0, old_name@, new_name@)) by {
                assert forall|e: (Seq<char>, IpAddress)|
                    e.0 == new_name@ && f0.contains((old@, e.1)) implies exists|k: int|
                        0 <= k < moved@.len() && moved@[k] == e.1 by {
                    assert(moved@.contains(e.1));
                }
                assert forall|e: (Seq<char>, IpAddress)|
                    e.0 == new_name@ && (exists|k: int| 0 <= k < moved@.len() && moved@[k] == e.1)
                        implies f0.contains((old@, e.1)) by {
                    let k = choose|k: int| 0 <= k < moved@.len() && moved@[k] == e.1;
                    assert(moved@.contains(e.1));
                }
            }
            assert(reverse_set(reverse@) =~= rename_reverse(f0, r0, old_name@, new_name@)) by {
                assert forall|e: (Seq<char>, Seq<char>)|
                    e.1 == new_name@ && (exists|a: IpAddress|
                        f0.contains((old@, a)) && e.0 == #[trigger] reverse_name(a)) implies exists|k: int|
                        0 <= k < moved@.len() && e.0 == reverse_name(#[trigger] moved@[k]) by {
                    let a = choose|a: IpAddress| f0.contains((old@, a)) && e.0 == #[trigger] reverse_name(a);
                    assert(moved@.contains(a));
                    let k = choose|k: int| 0 <= k < moved@.len() && moved@[k] == a;
                    assert(e.0 == reverse_name(moved@[k]));
                }
                assert forall|e: (Seq<char>, Seq<char>)|
                    e.1 == new_name@ && (exists|k: int|
                        0 <= k < moved@.len() && e.0 == reverse_name(#[trigger] moved@[k])) implies exists|a: IpAddress|
                        f0.contains((old@, a)) && e.0 == #[trigger] reverse_name(a) by {
                    let k = choose|k: int| 0 <= k < moved@.len() && e.0 == reverse_name(#[trigger] moved@[k]);
                    assert(moved@.contains(moved@[k]));
                    assert(f0.contains((old@, moved@[k])));
                }
            }
        }
        self.forward = forward;
        self.reverse = reverse;
        Ok(true)
    }
}


/// An address in a blacklisted range is never registered: `add` leaves both
/// record sets as they were, so a name without records still has none.
pub proof fn blacklisted_add_registers_nothing(
    blacklist: Seq<Cidr>,
    forward: Set<(Seq<char>, IpAddress)>,
    reverse: Set<(Seq<char>, Seq<char>)>,
    name: Seq<char>,
    a: IpAddress,
)
    requires
        blacklisted(blacklist, a),
    ensures
        add_result(blacklist, name, a) == Err::<(), TableError>(TableError::Blacklisted),
        add_forward(blacklist, forward, name, a) == forward,
        add_reverse(blacklist, reverse, name, a) == reverse,
        addresses_of(forward, stored_name(name)).is_empty() ==> addresses_of(
            add_forward(blacklist, forward, name, a),
            stored_name(name),
        ).is_empty(),
{
}

/// Adding a name and then removing it leaves no forward record under it
/// (for a name that `add` does not turn into a wildcard).
pub proof fn add_then_remove_leaves_no_records(
    blacklist: Seq<Cidr>,
    forward: Set<(Seq<char>, IpAddress)>,
    name: Seq<char>,
    a: IpAddress,
)
    requires
        names_valid(forward),
        !(name.len() > 0 && name[0] == '.'),
    ensures
        addresses_of(remove_forward(add_forward(blacklist, forward, name, a), name), name).is_empty(),
{
    let f1 = add_forward(blacklist, forward, name, a);
    let f2 = remove_forward(f1, name);
    assert(stored_name(name) == name);
    if !dns_name_valid(name) {
        assert forall|b: IpAddress| !f2.contains((name, b)) by {
            if f2.contains((name, b)) {
                assert(forward.contains((name, b)));
            }
        }
    }
    assert(addresses_of(f2, name) =~= Set::empty());
}

/// Renaming a name that has no entry succeeds and changes nothing: the old
/// name stays absent, and so does a new name that was absent.
pub proof fn rename_of_absent_entry_changes_nothing(
    forward: Set<(Seq<char>, IpAddress)>,
    reverse: Set<(Seq<char>, Seq<char>)>,
    old_name: Seq<char>,
    new_name: Seq<char>,
)
    requires
        addresses_of(forward, strip_slash(old_name)).is_empty(),
    ensures
        rename_result(forward, old_name, new_name) == Ok::<bool, TableError>(false),
        rename_forward(forward, old_name, new_name) == forward,
        rename_reverse(forward, reverse, old_name, new_name) == reverse,
        addresses_of(rename_forward(forward, old_name, new_name), strip_slash(old_name)).is_empty(),
        addresses_of(forward, new_name).is_empty() ==> addresses_of(
            rename_forward(forward, old_name, new_name),
            new_name,
        ).is_empty(),
{
}

} // verus!
