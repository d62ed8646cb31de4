//! The policy store: per-tag flags, allow-lists and protocol lists.

use vstd::prelude::*;

use crate::escape::{lower_of, to_lowercase};
use crate::tags::{tag_index, Tag, TAG_COUNT};
use crate::text::{listed, str_eq, views};

verus! {

/// The tag may stay in the document.
pub const SELMA_SANITIZER_ALLOW: u8 = 1;

/// A removed tag takes its content with it instead of leaving it in place.
pub const SELMA_SANITIZER_REMOVE_CONTENTS: u8 = 2;

/// Content left in place by a removed tag is padded with spaces.
pub const SELMA_SANITIZER_WRAP_WHITESPACE: u8 = 4;

/// The slot of the per-tag tables that an element name selects (names are
/// compared in lower case).
pub open spec fn slot_of(name: Seq<char>) -> int {
    tag_index(lower_of(name))
}

/// A protocol table as plain values: attribute names and their protocol lists.
pub type ProtocolTable = Seq<(Seq<char>, Seq<Seq<char>>)>;

/// The first entry at or after `i` whose attribute is `name` (the length if none).
pub open spec fn entry_from(ps: ProtocolTable, name: Seq<char>, i: int) -> int
    decreases ps.len() - i,
{
    if i < 0 || i >= ps.len() {
        ps.len() as int
    } else if ps[i].0 == name {
        i
    } else {
        entry_from(ps, name, i + 1)
    }
}

/// The protocol list registered for the attribute `name`, if any.
pub open spec fn protocols_for(ps: ProtocolTable, name: Seq<char>) -> Option<Seq<Seq<char>>> {
    let k = entry_from(ps, name, 0);
    if 0 <= k < ps.len() {
        Some(ps[k].1)
    } else {
        None
    }
}

pub proof fn lemma_entry_from_bounds(ps: ProtocolTable, name: Seq<char>, i: int)
    requires
        0 <= i <= ps.len(),
    ensures
        i <= entry_from(ps, name, i) <= ps.len(),
        entry_from(ps, name, i) < ps.len() ==> ps[entry_from(ps, name, i)].0 == name,
    decreases ps.len() - i,
{
    if i < ps.len() && ps[i].0 != name {
        lemma_entry_from_bounds(ps, name, i + 1);
    }
}

/// One entry of an allow-list of protocols.
#[derive(Clone, Debug, PartialEq, Eq)]
pub enum AllowedProtocol {
    /// A scheme name such as `http`.
    Literal(String),
    /// Relative URLs: both fragments (`#`) and paths (`/`).
    Relative,
}

/// The protocol tokens that a list of entries stands for.
pub open spec fn expanded(list: Seq<AllowedProtocol>) -> Seq<Seq<char>>
    decreases list.len(),
{
    if list.len() == 0 {
        Seq::empty()
    } else {
        expanded(list.drop_last()) + match list.last() {
            AllowedProtocol::Literal(s) => seq![s@],
            AllowedProtocol::Relative => seq![seq!['#'], seq!['/']],
        }
    }
}

/// `s` without any copy of `name`, the other entries in order.
pub open spec fn without(s: Seq<Seq<char>>, name: Seq<char>) -> Seq<Seq<char>>
    decreases s.len(),
{
    if s.len() == 0 {
        Seq::empty()
    } else {
        let rest = without(s.drop_last(), name);
        if s.last() == name {
            rest
        } else {
            rest.push(s.last())
        }
    }
}

/// The allow-list `s`, used as a set, after allowing (`allow`) or disallowing
/// `name`: allowing appends it unless it is listed already; disallowing takes
/// out every copy.
pub open spec fn toggled(s: Seq<Seq<char>>, name: Seq<char>, allow: bool) -> Seq<Seq<char>> {
    if allow {
        if s.contains(name) {
            s
        } else {
            s.push(name)
        }
    } else {
        without(s, name)
    }
}

/// As sets, `t` is `s` with `name` added (`allow`) or taken out.
pub open spec fn set_updated(s: Seq<Seq<char>>, t: Seq<Seq<char>>, name: Seq<char>, allow: bool) -> bool {
    &&& allow ==> t.contains(name)
    &&& !allow ==> !t.contains(name)
    &&& forall|x: Seq<char>| x != name && s.contains(x) ==> #[trigger] t.contains(x)
    &&& forall|x: Seq<char>| #[trigger] t.contains(x) ==> x == name || s.contains(x)
}

proof fn lemma_without_members(s: Seq<Seq<char>>, name: Seq<char>)
    ensures
        forall|x: Seq<char>| #[trigger] without(s, name).contains(x) <==> x != name && s.contains(x),
    decreases s.len(),
{
    if s.len() > 0 {
        let d = s.drop_last();
        lemma_without_members(d, name);
        let rest = without(d, name);
        assert forall|x: Seq<char>| #[trigger] without(s, name).contains(x) <==> x != name && s.contains(x) by {
            if s.contains(x) {
                let k = choose|k: int| 0 <= k < s.len() && s[k] == x;
                if k < d.len() {
                    assert(d[k] == x);
                }
            }
            if d.contains(x) {
                let k = choose|k: int| 0 <= k < d.len() && d[k] == x;
                assert(s[k] == x);
            }
            if s.last() != name {
                let r = rest.push(s.last());
                assert(r[r.len() - 1] == s.last());
                if r.contains(x) {
                    let k = choose|k: int| 0 <= k < r.len() && r[k] == x;
                    if k < rest.len() {
                        assert(rest[k] == x);
                    }
                }
                if rest.contains(x) {
                    let k = choose|k: int| 0 <= k < rest.len() && rest[k] == x;
                    assert(r[k] == x);
                }
            }
        }
    }
}

/// Allowing or disallowing a name in an allow-list acts on it as a set:
/// afterwards the name is listed exactly when it was allowed, and every other
/// name is listed exactly when it was listed before.
pub proof fn lemma_toggled_is_set_update(s: Seq<Seq<char>>, name: Seq<char>, allow: bool)
    ensures
        set_updated(s, toggled(s, name, allow), name, allow),
{
    lemma_without_members(s, name);
    if allow && !s.contains(name) {
        let t = s.push(name);
        assert(t[t.len() - 1] == name);
        assert forall|x: Seq<char>| x != name && s.contains(x) implies #[trigger] t.contains(x) by {
            let k = choose|k: int| 0 <= k < s.len() && s[k] == x;
            assert(t[k] == x);
        }
        assert forall|x: Seq<char>| #[trigger] t.contains(x) implies x == name || s.contains(x) by {
            let k = choose|k: int| 0 <= k < t.len() && t[k] == x;
            if k < s.len() {
                assert(s[k] == x);
            }
        }
    }
}

/// The rules for one tag.
pub struct ElementSanitizer {
    pub allowed_attrs: Vec<String>,
    pub required_attrs: Vec<String>,
    pub allowed_classes: Vec<String>,
    pub protocol_sanitizers: Vec<(String, Vec<String>)>,
}

/// The rules for one tag, as plain values.
pub struct PolicyView {
    pub allowed_attrs: Seq<Seq<char>>,
    pub required_attrs: Seq<Seq<char>>,
    pub allowed_classes: Seq<Seq<char>>,
    pub protocols: ProtocolTable,
}

impl View for ElementSanitizer {
    type V = PolicyView;

    open spec fn view(&self) -> PolicyView {
        PolicyView {
            allowed_attrs: views(self.allowed_attrs@),
            required_attrs: views(self.required_attrs@),
            allowed_classes: views(self.allowed_classes@),
            protocols: self.protocol_sanitizers@.map_values(
                |e: (String, Vec<String>)| (e.0@, views(e.1@)),
            ),
        }
    }
}

impl ElementSanitizer {
    pub fn new() -> (r: ElementSanitizer)
        ensures
            r@.allowed_attrs.len() == 0,
            r@.required_attrs.len() == 0,
            r@.allowed_classes.len() == 0,
            r@.protocols.len() == 0,
    {
        ElementSanitizer {
            allowed_attrs: Vec::new(),
            required_attrs: Vec::new(),
            allowed_classes: Vec::new(),
            protocol_sanitizers: Vec::new(),
        }
    }

    /// The position of the protocol list of the attribute `name`, if there is one.
    pub fn protocol_entry(&self, name: &str) -> (r: Option<usize>)
        ensures
            r matches Some(k) ==> k == entry_from(self@.protocols, name@, 0) && k < self@.protocols.len(),
            r is None ==> entry_from(self@.protocols, name@, 0) == self@.protocols.len(),
    {
        let ghost ps = self@.protocols;
        let mut i: usize = 0;
        while i < self.protocol_sanitizers.len()
            invariant
                ps == self@.protocols,
                i <= ps.len(),
                entry_from(ps, name@, 0) == entry_from(ps, name@, i as int),
            decreases self.protocol_sanitizers.len() - i,
        {
            assert(ps[i as int].0 == self.protocol_sanitizers@[i as int].0@);
            if str_eq(self.protocol_sanitizers[i].0.as_str(), name) {
                return Some(i);
            }
            i = i + 1;
        }
        None
    }

    /// Adds the tokens of `allow_list` to the protocol list of `attr_name`;
    /// the list is created when the attribute has none and a token is added.
    pub fn add_protocols(&mut self, attr_name: &str, allow_list: &Vec<AllowedProtocol>)
        ensures
            final(self)@.allowed_attrs == old(self)@.allowed_attrs,
            final(self)@.required_attrs == old(self)@.required_attrs,
            final(self)@.allowed_classes == old(self)@.allowed_classes,
            ({
                let ps = old(self)@.protocols;
                let k = entry_from(ps, attr_name@, 0);
                let add = expanded(allow_list@);
                if k < ps.len() {
                    final(self)@.protocols == ps.update(k, (attr_name@, ps[k].1 + add))
                } else if add.len() > 0 {
                    final(self)@.protocols == ps.push((attr_name@, add))
                } else {
                    final(self)@.protocols == ps
                }
            }),
    {
        let ghost ps = old(self)@.protocols;
        let ghost add = expanded(allow_list@);
        let mut tokens: Vec<String> = Vec::new();
        let mut i: usize = 0;
        proof {
            reveal_strlit("#");
            reveal_strlit("/");
        }
        while i < allow_list.len()
            invariant
                i <= allow_list@.len(),
                views(tokens@) == expanded(allow_list@.subrange(0, i as int)),
                "#"@ == seq!['#'],
                "/"@ == seq!['/'],
            decreases allow_list.len() - i,
        {
            let ghost before = tokens@;
            assert(allow_list@.subrange(0, i + 1).drop_last() =~= allow_list@.subrange(0, i as int));
            match &allow_list[i] {
                AllowedProtocol::Literal(s) => {
                    tokens.push(s.clone());
                    assert(views(tokens@) =~= views(before) + seq![s@]);
                },
                AllowedProtocol::Relative => {
                    tokens.push(String::from_str("#"));
                    tokens.push(String::from_str("/"));
                    assert(views(tokens@) =~= views(before) + seq![seq!['#'], seq!['/']]);
                },
            }
            i = i + 1;
        }
        assert(allow_list@.subrange(0, allow_list.len() as int) =~= allow_list@);
        proof {
            lemma_entry_from_bounds(ps, attr_name@, 0);
        }
        match self.protocol_entry(attr_name) {
            Some(k) => {
                let mut j: usize = 0;
                let ghost start = self.protocol_sanitizers@[k as int].1@;
                while j < tokens.len()
                    invariant
                        k < self.protocol_sanitizers@.len(),
                        self.protocol_sanitizers@.len() == ps.len(),
                        forall|m: int| 0 <= m < ps.len() && m != k ==> self.protocol_sanitizers@[m] == old(self).protocol_sanitizers@[m],
                        self.protocol_sanitizers@[k as int].0 == old(self).protocol_sanitizers@[k as int].0,
                        views(self.protocol_sanitizers@[k as int].1@) == views(start) + views(tokens@).subrange(0, j as int),
                        views(start) == ps[k as int].1,
                        j <= tokens@.len(),
                        self.allowed_attrs == old(self).allowed_attrs,
                        self.required_attrs == old(self).required_attrs,
                        self.allowed_classes == old(self).allowed_classes,
                    decreases tokens.len() - j,
                {
                    let ghost before = self.protocol_sanitizers@[k as int].1@;
                    self.protocol_sanitizers[k].1.push(tokens[j].clone());
                    assert(views(self.protocol_sanitizers@[k as int].1@) =~= views(before).push(tokens@[j as int]@));
                    assert(views(tokens@).subrange(0, j + 1) =~= views(tokens@).subrange(0, j as int).push(tokens@[j as int]@));
                    j = j + 1;
                }
                assert(views(tokens@).subrange(0, tokens.len() as int) =~= views(tokens@));
                assert(self@.protocols =~= ps.update(k as int, (attr_name@, ps[k as int].1 + add)));
            },
            None => {
                if tokens.len() > 0 {
                    self.protocol_sanitizers.push((String::from_str(attr_name), tokens));
                    assert(self@.protocols =~= ps.push((attr_name@, add)));
                }
            },
        }
    }
}

/// Allows or disallows `name` in the allow-list `set` (see `toggled`).
pub fn set_allowed(set: &mut Vec<String>, name: &str, allow: bool)
    ensures
        views(final(set)@) == toggled(views(old(set)@), name@, allow),
        set_updated(views(old(set)@), views(final(set)@), name@, allow),
{
    proof {
        lemma_toggled_is_set_update(views(old(set)@), name@, allow);
    }
    let ghost s = views(set@);
    if allow {
        if !listed(set, name) {
            set.push(String::from_str(name));
            assert(views(set@) =~= s.push(name@));
        }
        return;
    }
    let mut kept: Vec<String> = Vec::new();
    let mut i: usize = 0;
    while i < set.len()
        invariant
            s == views(set@),
            i <= set@.len(),
            views(kept@) == without(s.subrange(0, i as int), name@),
        decreases set.len() - i,
    {
        let ghost before = kept@;
        assert(s.subrange(0, i + 1).drop_last() =~= s.subrange(0, i as int));
        assert(s.subrange(0, i + 1).last() == set@[i as int]@);
        if !str_eq(set[i].as_str(), name) {
            kept.push(set[i].clone());
            assert(views(kept@) =~= views(before).push(set@[i as int]@));
        }
        i = i + 1;
    }
    assert(s.subrange(0, set.len() as int) =~= s);
    *set = kept;
}

/// The policy store shared by every decision.
pub struct Sanitizer<C> {
    /// The flag bits of each tag slot.
    pub flags: Vec<u8>,
    /// Attributes allowed on every element.
    pub allowed_attrs: Vec<String>,
    /// Classes allowed on every element.
    pub allowed_classes: Vec<String>,
    /// The rules of each tag slot.
    pub element_sanitizers: Vec<ElementSanitizer>,
    pub allow_comments: bool,
    pub allow_doctype: bool,
    /// The configuration the store was built from, handed back untouched.
    pub config: C,
}

impl<C> Sanitizer<C> {
    /// Every tag slot has its flags and its rules.
    pub open spec fn wf(&self) -> bool {
        self.flags@.len() == TAG_COUNT && self.element_sanitizers@.len() == TAG_COUNT
    }

    /// The rules of the tag slot `i`.
    pub open spec fn policy(&self, i: int) -> PolicyView {
        self.element_sanitizers@[i]@
    }

    /// A store that allows nothing: no flags, empty allow-lists, comments and
    /// doctypes dropped.
    pub fn new(config: C) -> (r: Sanitizer<C>)
        ensures
            r.wf(),
            forall|i: int| 0 <= i < TAG_COUNT ==> r.flags@[i] == 0,
            forall|i: int|
                0 <= i < TAG_COUNT ==> (#[trigger] r.policy(i)).allowed_attrs.len() == 0
                    && r.policy(i).required_attrs.len() == 0
                    && r.policy(i).allowed_classes.len() == 0 && r.policy(i).protocols.len() == 0,
            r.allowed_attrs@.len() == 0,
            r.allowed_classes@.len() == 0,
            !r.allow_comments,
            !r.allow_doctype,
            r.config == config,
    {
        let mut flags: Vec<u8> = Vec::new();
        let mut element_sanitizers: Vec<ElementSanitizer> = Vec::new();
        let mut i: usize = 0;
        while i < TAG_COUNT
            invariant
                i <= TAG_COUNT,
                flags@.len() == i,
                element_sanitizers@.len() == i,
                forall|j: int| 0 <= j < i ==> flags@[j] == 0,
                forall|j: int|
                    0 <= j < i ==> (#[trigger] element_sanitizers@[j])@.allowed_attrs.len() == 0
                        && element_sanitizers@[j]@.required_attrs.len() == 0
                        && element_sanitizers@[j]@.allowed_classes.len() == 0
                        && element_sanitizers@[j]@.protocols.len() == 0,
            decreases TAG_COUNT - i,
        {
            flags.push(0);
            element_sanitizers.push(ElementSanitizer::new());
            i = i + 1;
        }
        Sanitizer {
            flags,
            allowed_attrs: Vec::new(),
            allowed_classes: Vec::new(),
            element_sanitizers,
            allow_comments: false,
            allow_doctype: false,
            config,
        }
    }

    /// The tag slot of an element name.
    pub fn slot(name: &str) -> (r: usize)
        ensures
            r == slot_of(name@),
            r < TAG_COUNT,
    {
        let lower = to_lowercase(name);
        proof {
            crate::tags::lemma_index_from_bounds(lower@, 0);
        }
        Tag::tag_from_element_name(lower.as_str()).index
    }
}

} // verus!
