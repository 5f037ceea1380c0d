//! Capabilities granted to team members, and their resolution.
use vstd::prelude::*;
use vstd::string::*;
use crate::text::{first_index_of, same_text};

verus! {

/// The abstract value of a capability: a namespace, and an action
/// (`None` is the wildcard that covers every action of the namespace).
pub type CapabilityModel = (Seq<char>, Option<Seq<char>>);

/// The action part of a capability.
pub enum Action {
    Named(String),
    Wildcard,
}

/// A capability such as `server.edit`, or `server.*` for every action
/// of the `server` namespace.
pub struct Capability {
    pub namespace: String,
    pub action: Action,
}

pub open spec fn action_model(a: Action) -> Option<Seq<char>> {
    match a {
        Action::Named(s) => Some(s@),
        Action::Wildcard => None,
    }
}

impl View for Capability {
    type V = CapabilityModel;

    open spec fn view(&self) -> CapabilityModel {
        (self.namespace@, action_model(self.action))
    }
}

/// The namespace whose wildcard covers every capability.
pub open spec fn global_namespace() -> Seq<char> {
    seq!['g', 'l', 'o', 'b', 'a', 'l']
}

/// How a flag string is read as a capability: the text before the first `.`
/// is the namespace, the text after it the action, `*` being the wildcard.
/// A flag without a `.` names an action of the global namespace.
pub open spec fn parse_flag(t: Seq<char>) -> CapabilityModel {
    let (ns, act) = match first_index_of(t, '.') {
        Some(i) => (t.subrange(0, i), t.subrange(i + 1, t.len() as int)),
        None => (global_namespace(), t),
    };
    (ns, if act == seq!['*'] { None } else { Some(act) })
}

/// Whether the granted capability `g` covers the required capability `r`.
pub open spec fn covers(g: CapabilityModel, r: CapabilityModel) -> bool {
    g == r || (g.1 is None && (g.0 == global_namespace() || g.0 == r.0))
}

/// Whether some capability of `caps` covers `r`.
pub open spec fn granted(caps: Seq<CapabilityModel>, r: CapabilityModel) -> bool {
    exists|i: int| 0 <= i < caps.len() && covers(caps[i], r)
}

/// The capabilities named by a list of flags, deduplicated, in the order of
/// their first occurrence.
pub open spec fn resolve_flags(flags: Seq<Seq<char>>) -> Seq<CapabilityModel>
    decreases flags.len(),
{
    if flags.len() == 0 {
        Seq::empty()
    } else {
        let prev = resolve_flags(flags.drop_last());
        let c = parse_flag(flags.last());
        if prev.contains(c) {
            prev
        } else {
            prev.push(c)
        }
    }
}

/// The flag string that writes a capability.
pub open spec fn flag_text(c: CapabilityModel) -> Seq<char> {
    c.0 + seq!['.'] + match c.1 {
        Some(a) => a,
        None => seq!['*'],
    }
}

pub open spec fn flag_views(flags: Seq<String>) -> Seq<Seq<char>> {
    flags.map_values(|f: String| f@)
}

pub open spec fn cap_views(caps: Seq<Capability>) -> Seq<CapabilityModel> {
    caps.map_values(|c: Capability| c@)
}

impl Capability {
    /// Reads a flag string as a capability.
    pub fn parse(flag: &str) -> (r: Capability)
        ensures
            r@ == parse_flag(flag@),
    {
        let n = flag.unicode_len();
        let mut i: usize = 0;
        while i < n && flag.get_char(i) != '.'
            invariant
                n == flag@.len(),
                i <= n,
                forall|j: int| 0 <= j < i ==> flag@[j] != '.',
            decreases n - i,
        {
            i = i + 1;
        }
        proof {
            reveal_strlit("global");
            reveal_strlit("*");
            assert("global"@ =~= global_namespace());
            assert("*"@ =~= seq!['*']);
        }
        let (ns, act) = if i < n {
            assert(flag@[i as int] == '.');
            assert(first_index_of(flag@, '.') == Some(i as int)) by {
                let k = choose|k: int| 0 <= k < flag@.len() && flag@[k] == '.' && forall|j: int| 0 <= j < k ==> flag@[j] != '.';
                assert(k == i as int);
            }
            (String::from_str(flag.substring_char(0, i)), flag.substring_char(i + 1, n))
        } else {
            assert(first_index_of(flag@, '.') is None);
            (String::from_str("global"), flag)
        };
        let action = if same_text(act, "*") {
            Action::Wildcard
        } else {
            Action::Named(String::from_str(act))
        };
        Capability { namespace: ns, action }
    }

    /// Whether the two capabilities are the same.
    pub fn same_as(&self, other: &Capability) -> (r: bool)
        ensures
            r == (self@ == other@),
    {
        if !same_text(self.namespace.as_str(), other.namespace.as_str()) {
            return false;
        }
        match (&self.action, &other.action) {
            (Action::Wildcard, Action::Wildcard) => true,
            (Action::Named(a), Action::Named(b)) => same_text(a.as_str(), b.as_str()),
            _ => false,
        }
    }

    /// Whether this capability, once granted, covers `required`.
    pub fn covers(&self, required: &Capability) -> (r: bool)
        ensures
            r == covers(self@, required@),
    {
        proof {
            reveal_strlit("global");
            assert("global"@ =~= global_namespace());
        }
        if self.same_as(required) {
            return true;
        }
        match self.action {
            Action::Wildcard => same_text(self.namespace.as_str(), "global") || same_text(
                self.namespace.as_str(),
                required.namespace.as_str(),
            ),
            Action::Named(_) => false,
        }
    }

    /// The flag string of this capability (`namespace.action`, or
    /// `namespace.*` for the wildcard).
    pub fn to_flag(&self) -> (r: String)
        ensures
            r@ == flag_text(self@),
    {
        proof {
            reveal_strlit(".");
            reveal_strlit("*");
        }
        let mut s = self.namespace.clone();
        s.append(".");
        match &self.action {
            Action::Named(a) => s.append(a.as_str()),
            Action::Wildcard => s.append("*"),
        }
        s
    }
}

/// Resolves stored flags into the deduplicated list of capabilities they
/// grant, in the order of their first occurrence.
pub fn resolve(flags: &Vec<String>) -> (r: Vec<Capability>)
    ensures
        cap_views(r@) == resolve_flags(flag_views(flags@)),
{
    let mut out: Vec<Capability> = Vec::new();
    let mut i: usize = 0;
    while i < flags.len()
        invariant
            i <= flags@.len(),
            cap_views(out@) == resolve_flags(flag_views(flags@.subrange(0, i as int))),
        decreases flags@.len() - i,
    {
        let c = Capability::parse(flags[i].as_str());
        let mut seen = false;
        let mut j: usize = 0;
        while j < out.len()
            invariant
                j <= out@.len(),
                seen == (exists|k: int| 0 <= k < j && out@[k]@ == c@),
            decreases out@.len() - j,
        {
            if out[j].same_as(&c) {
                seen = true;
            }
            j = j + 1;
        }
        proof {
            let pre = flags@.subrange(0, i as int);
            let cur = flags@.subrange(0, i + 1);
            assert(flag_views(cur).drop_last() =~= flag_views(pre));
            assert(flag_views(cur).last() == flags@[i as int]@);
            if seen {
                let k = choose|k: int| 0 <= k < out@.len() && out@[k]@ == c@;
                assert(cap_views(out@)[k] == c@);
            } else {
                assert forall|k: int| 0 <= k < cap_views(out@).len() implies cap_views(out@)[k] != c@ by {
                    assert(out@[k]@ != c@);
                }
            }
        }
        if !seen {
            proof {
                assert(cap_views(out@.push(c)) =~= cap_views(out@).push(c@));
            }
            out.push(c);
        }
        i = i + 1;
    }
    proof {
        assert(flags@.subrange(0, flags@.len() as int) =~= flags@);
    }
    out
}

/// Whether some capability of `caps` covers `required`.
pub fn has_capability(caps: &Vec<Capability>, required: &Capability) -> (r: bool)
    ensures
        r == granted(cap_views(caps@), required@),
{
    let mut i: usize = 0;
    while i < caps.len()
        invariant
            i <= caps@.len(),
            forall|k: int| 0 <= k < i ==> !covers(caps@[k]@, required@),
        decreases caps@.len() - i,
    {
        if caps[i].covers(required) {
            assert(cap_views(caps@)[i as int] == caps@[i as int]@);
            return true;
        }
        i = i + 1;
    }
    assert forall|k: int| 0 <= k < cap_views(caps@).len() implies !covers(cap_views(caps@)[k], required@) by {
        assert(cap_views(caps@)[k] == caps@[k]@);
    }
    false
}

} // verus!
