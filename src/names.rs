//! The DNS names that a container answers to, derived from its attributes.
use vstd::prelude::*;

use crate::event::{lookup, Event, EventActor};
use crate::text::{decimal, host_chars, parse_decimal, parse_usize, push_decimal, push_str, sanitize};

verus! {

/// The instance number of a compose service: the `container-number`
/// attribute when it reads as a number, else 1.
pub open spec fn compose_instance(attrs: Seq<(Seq<char>, Seq<char>)>) -> nat {
    match lookup(attrs, "com.docker.compose.container-number"@) {
        Some(t) => match parse_usize(t) {
            Some(v) => v,
            None => 1,
        },
        None => 1,
    }
}

/// The names of a container, in order: its sanitized `name`, then, for a
/// compose service, `{instance}.{service}.{project}` and, for the first
/// instance, `{service}.{project}`.
pub open spec fn derive_names(attrs: Seq<(Seq<char>, Seq<char>)>) -> Seq<Seq<char>> {
    let direct = match lookup(attrs, "name"@) {
        Some(n) => seq![host_chars(n)],
        None => Seq::empty(),
    };
    let instance = compose_instance(attrs);
    match (
        lookup(attrs, "com.docker.compose.service"@),
        lookup(attrs, "com.docker.compose.project"@),
    ) {
        (Some(service), Some(project)) => {
            let numbered = seq![decimal(instance) + "."@ + service + "."@ + project];
            if instance == 1 {
                direct + numbered + seq![service + "."@ + project]
            } else {
                direct + numbered
            }
        },
        _ => direct,
    }
}

/// The strings of a vector as character sequences.
pub open spec fn strings_view(v: Seq<String>) -> Seq<Seq<char>> {
    v.map_values(|s: String| s@)
}

/// Deriving names depends on the attributes alone: equal attributes give the
/// same names, in the same order.
pub proof fn derive_names_deterministic(a: Seq<(Seq<char>, Seq<char>)>, b: Seq<(Seq<char>, Seq<char>)>)
    requires
        a == b,
    ensures
        derive_names(a) == derive_names(b),
{
}

fn compose_instance_of(actor: &EventActor) -> (r: usize)
    ensures
        r as nat == compose_instance(actor.attrs()),
{
    match actor.attribute("com.docker.compose.container-number") {
        Some(t) => match parse_decimal(t.as_str()) {
            Some(v) => v,
            None => 1,
        },
        None => 1,
    }
}

/// All the names that the container of `docker_event` answers to.
pub fn get_all_names(docker_event: &Event) -> (names: Vec<String>)
    ensures
        strings_view(names@) == derive_names(docker_event.actor.attrs()),
{
    let actor = &docker_event.actor;
    let mut names: Vec<String> = Vec::new();
    if let Some(name) = actor.attribute("name") {
        names.push(sanitize(name.as_str()));
    }
    let ghost direct = strings_view(names@);
    let instance = compose_instance_of(actor);
    let service = actor.attribute("com.docker.compose.service");
    let project = actor.attribute("com.docker.compose.project");
    if let (Some(service), Some(project)) = (service, project) {
        let mut numbered = String::new();
        push_decimal(&mut numbered, instance as u64);
        push_str(&mut numbered, ".");
        push_str(&mut numbered, service.as_str());
        push_str(&mut numbered, ".");
        push_str(&mut numbered, project.as_str());
        names.push(numbered);
        if instance == 1 {
            let mut short = String::new();
            push_str(&mut short, service.as_str());
            push_str(&mut short, ".");
            push_str(&mut short, project.as_str());
            names.push(short);
        }
    }
    proof {
        let attrs = actor.attrs();
        let d = match lookup(attrs, "name"@) {
            Some(n) => seq![host_chars(n)],
            None => Seq::<Seq<char>>::empty(),
        };
        assert(direct =~= d);
    }
    assert(strings_view(names@) =~= derive_names(actor.attrs()));
    names
}

/// `name` qualified with the base domain: `{name}.{domain}`.
pub open spec fn qualified(name: Seq<char>, domain: Seq<char>) -> Seq<char> {
    name + "."@ + domain
}

/// Appends the base domain to a name.
pub fn qualify(name: &str, domain: &str) -> (r: String)
    ensures
        r@ == qualified(name@, domain@),
{
    let mut r = String::new();
    push_str(&mut r, name);
    push_str(&mut r, ".");
    push_str(&mut r, domain);
    r
}

} // verus!
