//! The lifecycle events that a container runtime emits.
use vstd::prelude::*;

use crate::text::str_equal;

verus! {

/// The kind of object that an event is about.
#[derive(Clone, Copy, Debug, PartialEq, Eq, Structural)]
pub enum EventType {
    Builder,
    Config,
    Container,
    Daemon,
    Image,
    Network,
    Node,
    Plugin,
    Secret,
    Service,
    Volume,
}

/// Whether an event comes from the local engine or from the swarm.
#[derive(Clone, Copy, Debug, PartialEq, Eq, Structural)]
pub enum EventScope {
    Local,
    Swarm,
}

/// The object that an event is about, with its attributes as key/value pairs.
#[derive(Clone, Debug)]
pub struct EventActor {
    pub id: String,
    pub attributes: Vec<(String, String)>,
}

/// One lifecycle event, as the runtime's event stream reports it.
#[derive(Clone, Debug)]
pub struct Event {
    pub kind: EventType,
    pub action: String,
    pub actor: EventActor,
    pub scope: EventScope,
    pub time: u64,
    pub time_nano: u64,
}

/// The attributes as pairs of character sequences.
pub open spec fn attrs_view(a: Seq<(String, String)>) -> Seq<(Seq<char>, Seq<char>)> {
    a.map_values(|p: (String, String)| (p.0@, p.1@))
}

/// The value of the first attribute named `key`.
pub open spec fn lookup(attrs: Seq<(Seq<char>, Seq<char>)>, key: Seq<char>) -> Option<Seq<char>>
    decreases attrs.len(),
{
    if attrs.len() == 0 {
        None
    } else if attrs[0].0 == key {
        Some(attrs[0].1)
    } else {
        lookup(attrs.drop_first(), key)
    }
}

impl EventActor {
    pub open spec fn attrs(&self) -> Seq<(Seq<char>, Seq<char>)> {
        attrs_view(self.attributes@)
    }

    /// The value of the attribute named `key`, if the actor has one.
    pub fn attribute(&self, key: &str) -> (r: Option<String>)
        ensures
            r matches Some(v) ==> lookup(self.attrs(), key@) == Some(v@),
            r is None ==> lookup(self.attrs(), key@) is None,
    {
        let n = self.attributes.len();
        let mut i: usize = 0;
        assert(self.attrs().subrange(0, n as int) =~= self.attrs());
        while i < n
            invariant
                n == self.attributes@.len(),
                i <= n,
                lookup(self.attrs(), key@) == lookup(self.attrs().subrange(i as int, n as int), key@),
            decreases n - i,
        {
            proof {
                let rest = self.attrs().subrange(i as int, n as int);
                assert(rest.drop_first() =~= self.attrs().subrange(i + 1, n as int));
            }
            if str_equal(self.attributes[i].0.as_str(), key) {
                return Some(self.attributes[i].1.clone());
            }
            i = i + 1;
        }
        None
    }
}

} // verus!
