//! The sanitizer: configuration operations and the decisions taken for each
//! streamed node. Decisions come back as plans that the rewriter applies.

use vstd::prelude::*;

use crate::escape::{escape_href, escape_html, href_escaped_of, html_escaped, unescape_html, unescaped_of};
use crate::policy::{
    expanded, protocols_for, slot_of, toggled, entry_from, set_allowed, set_updated, lemma_toggled_is_set_update, AllowedProtocol,
    PolicyView, Sanitizer, SELMA_SANITIZER_ALLOW, SELMA_SANITIZER_REMOVE_CONTENTS, SELMA_SANITIZER_WRAP_WHITESPACE,
};
use crate::tags::{tag_at, Tag, IFRAME_INDEX, META_INDEX, TAG_COUNT};
use crate::text::{listed, starts_with, str_eq, trim_start, trimmed_start, views};
use crate::validate::{class_filter, has_allowed_protocol, protocol_allowed, sanitize_class_attribute};

verus! {

/// How a removed element leaves the document.
#[derive(Clone, Copy, Debug, PartialEq, Eq, Structural)]
pub struct Removal {
    /// Drop the element with everything inside it; otherwise only its tags go.
    pub remove_contents: bool,
    /// Put a space before the element's place.
    pub space_before: bool,
    /// Put a space after the element's place.
    pub space_after: bool,
    /// Drop the matching end tag when it arrives.
    pub remove_end_tag: bool,
}

/// The removal that the flag bits `flags` ask for on `tag`.
pub open spec fn removal_for(tag: Tag, flags: u8) -> Removal {
    let remove_contents = flags & SELMA_SANITIZER_REMOVE_CONTENTS != 0;
    let wrap = flags & SELMA_SANITIZER_WRAP_WHITESPACE != 0;
    Removal {
        remove_contents,
        space_before: !remove_contents && wrap && !tag.self_closing,
        space_after: !remove_contents && wrap,
        remove_end_tag: !tag.self_closing,
    }
}

/// What becomes of an element once its start tag is seen.
#[derive(Clone, Copy, Debug, PartialEq, Eq, Structural)]
pub enum ElementDecision {
    /// The element goes.
    Remove(Removal),
    /// The element stays; its attributes are checked next.
    Keep,
    /// The element stays with its content replaced by a space (`true`) or by nothing.
    KeepEmptied(bool),
}

/// The decision for an element of `tag` whose slot holds the bits `flags`.
/// Disallowed raw-text elements (scripts, styles) always go with their content.
pub open spec fn element_decision(tag: Tag, flags: u8) -> ElementDecision {
    if flags & SELMA_SANITIZER_ALLOW == 0 {
        ElementDecision::Remove(
            removal_for(tag, if tag.has_text_content { SELMA_SANITIZER_REMOVE_CONTENTS } else { flags }),
        )
    } else if tag.index == IFRAME_INDEX {
        ElementDecision::KeepEmptied(flags != 0)
    } else {
        ElementDecision::Keep
    }
}

/// What becomes of one attribute, as plain values.
pub enum AttrOutcome {
    Keep,
    Remove,
    Assign(Seq<char>),
}

/// What becomes of one attribute.
#[derive(Clone, Debug, PartialEq, Eq)]
pub enum AttrEdit {
    /// It stays as it is.
    Keep,
    /// It goes.
    Remove,
    /// It stays with this value.
    Assign(String),
}

impl View for AttrEdit {
    type V = AttrOutcome;

    open spec fn view(&self) -> AttrOutcome {
        match self {
            AttrEdit::Keep => AttrOutcome::Keep,
            AttrEdit::Remove => AttrOutcome::Remove,
            AttrEdit::Assign(v) => AttrOutcome::Assign(v@),
        }
    }
}

/// What becomes of the attributes of an element.
#[derive(Clone, Debug, PartialEq, Eq)]
pub enum AttributePlan {
    /// They are not looked at: the element is gone.
    Untouched,
    /// One edit per attribute, in order.
    Edit(Vec<AttrEdit>),
    /// An attribute smuggles comment syntax: the whole element goes.
    RemoveElement(Removal),
}

/// The plan for one element.
#[derive(Clone, Debug, PartialEq, Eq)]
pub struct ElementPlan {
    pub decision: ElementDecision,
    pub attributes: AttributePlan,
}

/// An attribute name that starts with `<!--`.
pub open spec fn opens_comment(name: Seq<char>) -> bool {
    "<!--"@.len() <= name.len() && name.subrange(0, "<!--"@.len() as int) == "<!--"@
}

/// How a surviving value `v` of attribute `name` is written back.
pub open spec fn encoded(is_meta: bool, name: Seq<char>, v: Seq<char>) -> AttrOutcome {
    if is_meta && name == "charset"@ {
        if v == "utf-8"@ {
            AttrOutcome::Keep
        } else {
            AttrOutcome::Assign("utf-8"@)
        }
    } else if name == "href"@ {
        AttrOutcome::Assign(href_escaped_of(v))
    } else {
        AttrOutcome::Assign(html_escaped(v))
    }
}

/// The value that attribute `name` keeps under the rules `p` of its tag, given
/// its decoded value `u`, or `None` when it goes.
pub open spec fn kept_value(
    global_attrs: Seq<Seq<char>>,
    global_classes: Seq<Seq<char>>,
    p: PolicyView,
    name: Seq<char>,
    u: Seq<char>,
) -> Option<Seq<char>> {
    if !(p.allowed_attrs.contains(name) || global_attrs.contains(name)) {
        None
    } else if (match protocols_for(p.protocols, name) {
        Some(ps) => !protocol_allowed(ps, u),
        None => false,
    }) {
        None
    } else if name == "class"@ {
        class_filter(u, global_classes, p.allowed_classes)
    } else {
        Some(u)
    }
}

/// The sanitizer, which owns its policy store.
pub struct SelmaSanitizer<C> {
    pub sanitizer: Sanitizer<C>,
}

impl<C> SelmaSanitizer<C> {
    pub open spec fn wf(&self) -> bool {
        self.sanitizer.wf()
    }

    /// What becomes of attribute `name` with raw value `value` on an element of slot `slot`.
    pub open spec fn attr_outcome(&self, slot: int, name: Seq<char>, value: Seq<char>) -> AttrOutcome {
        if value.len() == 0 {
            AttrOutcome::Remove
        } else {
            match kept_value(
                views(self.sanitizer.allowed_attrs@),
                views(self.sanitizer.allowed_classes@),
                self.sanitizer.policy(slot),
                name,
                unescaped_of(trimmed_start(value)),
            ) {
                None => AttrOutcome::Remove,
                Some(v) => encoded(slot == META_INDEX, name, v),
            }
        }
    }

    /// A sanitizer that allows nothing, holding `config`.
    pub fn new(config: C) -> (r: SelmaSanitizer<C>)
        ensures
            r.wf(),
            forall|i: int| 0 <= i < TAG_COUNT ==> r.sanitizer.flags@[i] == 0,
            forall|i: int|
                0 <= i < TAG_COUNT ==> (#[trigger] r.sanitizer.policy(i)).allowed_attrs.len() == 0
                    && r.sanitizer.policy(i).required_attrs.len() == 0
                    && r.sanitizer.policy(i).allowed_classes.len() == 0
                    && r.sanitizer.policy(i).protocols.len() == 0,
            r.sanitizer.allowed_attrs@.len() == 0,
            r.sanitizer.allowed_classes@.len() == 0,
            !r.sanitizer.allow_comments,
            !r.sanitizer.allow_doctype,
            r.sanitizer.config == config,
    {
        SelmaSanitizer { sanitizer: Sanitizer::new(config) }
    }

    /// The configuration the sanitizer was built from.
    pub fn config(&self) -> (r: &C)
        ensures
            r == &self.sanitizer.config,
    {
        &self.sanitizer.config
    }

    /// Everything but the flag table is as in `other`.
    pub open spec fn same_rules(&self, other: &SelmaSanitizer<C>) -> bool {
        self.sanitizer.allowed_attrs@ == other.sanitizer.allowed_attrs@
            && self.sanitizer.allowed_classes@ == other.sanitizer.allowed_classes@
            && self.sanitizer.element_sanitizers@ == other.sanitizer.element_sanitizers@
            && self.sanitizer.allow_comments == other.sanitizer.allow_comments
            && self.sanitizer.allow_doctype == other.sanitizer.allow_doctype
            && self.sanitizer.config == other.sanitizer.config
    }

    /// Everything but the allow-lists is as in `other`.
    pub open spec fn same_flags(&self, other: &SelmaSanitizer<C>) -> bool {
        self.sanitizer.flags@ == other.sanitizer.flags@
            && self.sanitizer.allow_comments == other.sanitizer.allow_comments
            && self.sanitizer.allow_doctype == other.sanitizer.allow_doctype
            && self.sanitizer.config == other.sanitizer.config
    }

    /// Sets (`set`) or clears the bits `flag` in the slot of `element`.
    pub fn set_flag(&mut self, element: &str, flag: u8, set: bool)
        requires
            old(self).wf(),
        ensures
            final(self).wf(),
            final(self).same_rules(old(self)),
            ({
                let i = slot_of(element@);
                let f = old(self).sanitizer.flags@[i];
                final(self).sanitizer.flags@ == old(self).sanitizer.flags@.update(
                    i,
                    if set { f | flag } else { f & !flag },
                )
            }),
    {
        let i = Sanitizer::<C>::slot(element);
        let f = self.sanitizer.flags[i];
        if set {
            self.sanitizer.flags.set(i, f | flag);
        } else {
            self.sanitizer.flags.set(i, f & !flag);
        }
    }

    /// Sets (`set`) or clears the bits `flag` in every slot; clearing leaves
    /// the other bits alone.
    pub fn set_all_flags(&mut self, flag: u8, set: bool)
        requires
            old(self).wf(),
        ensures
            final(self).wf(),
            final(self).same_rules(old(self)),
            forall|i: int|
                0 <= i < TAG_COUNT ==> #[trigger] final(self).sanitizer.flags@[i] == if set {
                    old(self).sanitizer.flags@[i] | flag
                } else {
                    old(self).sanitizer.flags@[i] & !flag
                },
    {
        let mut i: usize = 0;
        while i < TAG_COUNT
            invariant
                i <= TAG_COUNT,
                self.wf(),
                self.same_rules(old(self)),
                forall|j: int|
                    0 <= j < i ==> #[trigger] self.sanitizer.flags@[j] == if set {
                        old(self).sanitizer.flags@[j] | flag
                    } else {
                        old(self).sanitizer.flags@[j] & !flag
                    },
                forall|j: int| i <= j < TAG_COUNT ==> #[trigger] self.sanitizer.flags@[j] == old(self).sanitizer.flags@[j],
            decreases TAG_COUNT - i,
        {
            let f = self.sanitizer.flags[i];
            if set {
                self.sanitizer.flags.set(i, f | flag);
            } else {
                self.sanitizer.flags.set(i, f & !flag);
            }
            i = i + 1;
        }
    }

    /// Whether comments stay; returns `allow`.
    pub fn set_allow_comments(&mut self, allow: bool) -> (r: bool)
        ensures
            r == allow,
            final(self).sanitizer.allow_comments == allow,
            final(self).sanitizer.allow_doctype == old(self).sanitizer.allow_doctype,
            final(self).sanitizer.flags@ == old(self).sanitizer.flags@,
            final(self).sanitizer.allowed_attrs@ == old(self).sanitizer.allowed_attrs@,
            final(self).sanitizer.allowed_classes@ == old(self).sanitizer.allowed_classes@,
            final(self).sanitizer.element_sanitizers@ == old(self).sanitizer.element_sanitizers@,
            final(self).sanitizer.config == old(self).sanitizer.config,
    {
        self.sanitizer.allow_comments = allow;
        allow
    }

    /// Whether a comment is to be removed.
    pub fn sanitize_comment(&self) -> (remove: bool)
        ensures
            remove == !self.sanitizer.allow_comments,
    {
        !self.sanitizer.allow_comments
    }

    /// Whether doctype declarations stay; returns `allow`.
    pub fn set_allow_doctype(&mut self, allow: bool) -> (r: bool)
        ensures
            r == allow,
            final(self).sanitizer.allow_doctype == allow,
            final(self).sanitizer.allow_comments == old(self).sanitizer.allow_comments,
            final(self).sanitizer.flags@ == old(self).sanitizer.flags@,
            final(self).sanitizer.allowed_attrs@ == old(self).sanitizer.allowed_attrs@,
            final(self).sanitizer.allowed_classes@ == old(self).sanitizer.allowed_classes@,
            final(self).sanitizer.element_sanitizers@ == old(self).sanitizer.element_sanitizers@,
            final(self).sanitizer.config == old(self).sanitizer.config,
    {
        self.sanitizer.allow_doctype = allow;
        allow
    }

    /// Whether a doctype declaration is to be removed.
    pub fn sanitize_doctype(&self) -> (remove: bool)
        ensures
            remove == !self.sanitizer.allow_doctype,
    {
        !self.sanitizer.allow_doctype
    }

    /// Allows or disallows the attribute `attr_name` on the tag `element_name`,
    /// or on every element when the tag is `all`. The lists act as sets:
    /// disallowing takes every copy of the name out, on a tag as on `all`.
    /// Returns `allow`.
    pub fn set_allowed_attribute(&mut self, element_name: &str, attr_name: &str, allow: bool) -> (r: bool)
        requires
            old(self).wf(),
        ensures
            r == allow,
            final(self).wf(),
            final(self).same_flags(old(self)),
            final(self).sanitizer.allowed_classes@ == old(self).sanitizer.allowed_classes@,
            element_name@ == "all"@ ==> views(final(self).sanitizer.allowed_attrs@) == toggled(
                views(old(self).sanitizer.allowed_attrs@),
                attr_name@,
                allow,
            ) && final(self).sanitizer.element_sanitizers@ == old(self).sanitizer.element_sanitizers@,
            element_name@ == "all"@ ==> set_updated(
                views(old(self).sanitizer.allowed_attrs@),
                views(final(self).sanitizer.allowed_attrs@),
                attr_name@,
                allow,
            ),
            element_name@ != "all"@ ==> set_updated(
                old(self).sanitizer.policy(slot_of(element_name@)).allowed_attrs,
                final(self).sanitizer.policy(slot_of(element_name@)).allowed_attrs,
                attr_name@,
                allow,
            ),
            element_name@ != "all"@ ==> final(self).sanitizer.allowed_attrs@ == old(self).sanitizer.allowed_attrs@
                && ({
                let i = slot_of(element_name@);
                let p = old(self).sanitizer.policy(i);
                final(self).sanitizer.element_sanitizers@.len() == TAG_COUNT && (forall|j: int|
                    0 <= j < TAG_COUNT && j != i ==> #[trigger] final(self).sanitizer.element_sanitizers@[j]
                        == old(self).sanitizer.element_sanitizers@[j]) && final(self).sanitizer.policy(i)
                    == PolicyView { allowed_attrs: toggled(p.allowed_attrs, attr_name@, allow), ..p }
            }),
    {
        proof {
            lemma_toggled_is_set_update(views(old(self).sanitizer.allowed_attrs@), attr_name@, allow);
            lemma_toggled_is_set_update(old(self).sanitizer.policy(slot_of(element_name@)).allowed_attrs, attr_name@, allow);
        }
        if str_eq(element_name, "all") {
            set_allowed(&mut self.sanitizer.allowed_attrs, attr_name, allow);
        } else {
            let i = Sanitizer::<C>::slot(element_name);
            let mut es = self.sanitizer.element_sanitizers.remove(i);
            set_allowed(&mut es.allowed_attrs, attr_name, allow);
            self.sanitizer.element_sanitizers.insert(i, es);
            assert(forall|j: int| 0 <= j < TAG_COUNT && j != i ==> self.sanitizer.element_sanitizers@[j] == old(self).sanitizer.element_sanitizers@[j]);
        }
        allow
    }

    /// Allows or disallows the class `class_name` on the tag `element_name`,
    /// or on every element when the tag is `all`. The lists act as sets:
    /// disallowing takes every copy of the name out. Returns `allow`.
    pub fn set_allowed_class(&mut self, element_name: &str, class_name: &str, allow: bool) -> (r: bool)
        requires
            old(self).wf(),
        ensures
            r == allow,
            final(self).wf(),
            final(self).same_flags(old(self)),
            final(self).sanitizer.allowed_attrs@ == old(self).sanitizer.allowed_attrs@,
            element_name@ == "all"@ ==> views(final(self).sanitizer.allowed_classes@) == toggled(
                views(old(self).sanitizer.allowed_classes@),
                class_name@,
                allow,
            ) && final(self).sanitizer.element_sanitizers@ == old(self).sanitizer.element_sanitizers@,
            element_name@ == "all"@ ==> set_updated(
                views(old(self).sanitizer.allowed_classes@),
                views(final(self).sanitizer.allowed_classes@),
                class_name@,
                allow,
            ),
            element_name@ != "all"@ ==> set_updated(
                old(self).sanitizer.policy(slot_of(element_name@)).allowed_classes,
                final(self).sanitizer.policy(slot_of(element_name@)).allowed_classes,
                class_name@,
                allow,
            ),
            element_name@ != "all"@ ==> final(self).sanitizer.allowed_classes@ == old(self).sanitizer.allowed_classes@
                && ({
                let i = slot_of(element_name@);
                let p = old(self).sanitizer.policy(i);
                final(self).sanitizer.element_sanitizers@.len() == TAG_COUNT && (forall|j: int|
                    0 <= j < TAG_COUNT && j != i ==> #[trigger] final(self).sanitizer.element_sanitizers@[j]
                        == old(self).sanitizer.element_sanitizers@[j]) && final(self).sanitizer.policy(i)
                    == PolicyView { allowed_classes: toggled(p.allowed_classes, class_name@, allow), ..p }
            }),
    {
        proof {
            lemma_toggled_is_set_update(views(old(self).sanitizer.allowed_classes@), class_name@, allow);
            lemma_toggled_is_set_update(old(self).sanitizer.policy(slot_of(element_name@)).allowed_classes, class_name@, allow);
        }
        if str_eq(element_name, "all") {
            set_allowed(&mut self.sanitizer.allowed_classes, class_name, allow);
        } else {
            let i = Sanitizer::<C>::slot(element_name);
            let mut es = self.sanitizer.element_sanitizers.remove(i);
            set_allowed(&mut es.allowed_classes, class_name, allow);
            self.sanitizer.element_sanitizers.insert(i, es);
            assert(forall|j: int| 0 <= j < TAG_COUNT && j != i ==> self.sanitizer.element_sanitizers@[j] == old(self).sanitizer.element_sanitizers@[j]);
        }
        allow
    }

    /// Adds the entries of `allow_list` to the protocols allowed in attribute
    /// `attr_name` of tag `element_name`: a scheme adds itself, a relative
    /// marker adds `#` and `/`. Repeated calls accumulate.
    pub fn set_allowed_protocols(&mut self, element_name: &str, attr_name: &str, allow_list: &Vec<AllowedProtocol>)
        requires
            old(self).wf(),
        ensures
            final(self).wf(),
            final(self).same_flags(old(self)),
            final(self).sanitizer.allowed_attrs@ == old(self).sanitizer.allowed_attrs@,
            final(self).sanitizer.allowed_classes@ == old(self).sanitizer.allowed_classes@,
            ({
                let i = slot_of(element_name@);
                let p = old(self).sanitizer.policy(i);
                let q = final(self).sanitizer.policy(i);
                let k = entry_from(p.protocols, attr_name@, 0);
                let add = expanded(allow_list@);
                final(self).sanitizer.element_sanitizers@.len() == TAG_COUNT && (forall|j: int|
                    0 <= j < TAG_COUNT && j != i ==> #[trigger] final(self).sanitizer.element_sanitizers@[j]
                        == old(self).sanitizer.element_sanitizers@[j]) && q.allowed_attrs == p.allowed_attrs
                    && q.required_attrs == p.required_attrs && q.allowed_classes == p.allowed_classes
                    && if k < p.protocols.len() {
                    q.protocols == p.protocols.update(k, (attr_name@, p.protocols[k].1 + add))
                } else if add.len() > 0 {
                    q.protocols == p.protocols.push((attr_name@, add))
                } else {
                    q.protocols == p.protocols
                }
            }),
    {
        let i = Sanitizer::<C>::slot(element_name);
        let mut es = self.sanitizer.element_sanitizers.remove(i);
        es.add_protocols(attr_name, allow_list);
        self.sanitizer.element_sanitizers.insert(i, es);
        assert(forall|j: int| 0 <= j < TAG_COUNT && j != i ==> self.sanitizer.element_sanitizers@[j] == old(self).sanitizer.element_sanitizers@[j]);
    }

    /// The removal that `flags` asks for on `tag`.
    pub fn remove_element(tag: Tag, flags: u8) -> (r: Removal)
        ensures
            r == removal_for(tag, flags),
    {
        let remove_contents = flags & SELMA_SANITIZER_REMOVE_CONTENTS != 0;
        let wrap = flags & SELMA_SANITIZER_WRAP_WHITESPACE != 0;
        Removal {
            remove_contents,
            space_before: !remove_contents && wrap && !tag.self_closing,
            space_after: !remove_contents && wrap,
            remove_end_tag: !tag.self_closing,
        }
    }

    /// What becomes of an element named `tag_name` when its start tag is seen.
    pub fn try_remove_element(&self, tag_name: &str) -> (r: ElementDecision)
        requires
            self.wf(),
        ensures
            ({
                let i = slot_of(tag_name@);
                r == element_decision(tag_at(i), self.sanitizer.flags@[i])
            }),
    {
        let i = Sanitizer::<C>::slot(tag_name);
        let tag = Tag::from_index(i);
        let flags = self.sanitizer.flags[i];
        if flags & SELMA_SANITIZER_ALLOW == 0 {
            if Tag::has_text_content(tag) {
                ElementDecision::Remove(Self::remove_element(tag, SELMA_SANITIZER_REMOVE_CONTENTS))
            } else {
                ElementDecision::Remove(Self::remove_element(tag, flags))
            }
        } else if Tag::is_iframe(tag) {
            ElementDecision::KeepEmptied(flags != 0)
        } else {
            ElementDecision::Keep
        }
    }

    /// The value that attribute `attr_name` keeps on an element of slot
    /// `slot`, given its decoded value `attr_val`; `None` when it goes.
    pub fn should_keep_attribute(&self, slot: usize, attr_name: &str, attr_val: &str) -> (r: Option<String>)
        requires
            self.wf(),
            slot < TAG_COUNT,
        ensures
            ({
                let k = kept_value(
                    views(self.sanitizer.allowed_attrs@),
                    views(self.sanitizer.allowed_classes@),
                    self.sanitizer.policy(slot as int),
                    attr_name@,
                    attr_val@,
                );
                &&& r matches Some(v) ==> k == Some(v@)
                &&& r is None ==> k is None
            }),
    {
        let es = &self.sanitizer.element_sanitizers[slot];
        if !(listed(&es.allowed_attrs, attr_name) || listed(&self.sanitizer.allowed_attrs, attr_name)) {
            return None;
        }
        match es.protocol_entry(attr_name) {
            Some(k) => {
                assert(views(es.protocol_sanitizers@[k as int].1@) == es@.protocols[k as int].1);
                if !has_allowed_protocol(&es.protocol_sanitizers[k].1, attr_val) {
                    return None;
                }
            },
            None => {},
        }
        if str_eq(attr_name, "class") {
            return sanitize_class_attribute(&self.sanitizer.allowed_classes, &es.allowed_classes, attr_val);
        }
        Some(String::from_str(attr_val))
    }

    /// How the surviving value `v` of attribute `attr_name` is written back;
    /// `is_meta` tells whether the element is a `meta`.
    pub fn encode_attribute(is_meta: bool, attr_name: &str, v: &str) -> (r: AttrEdit)
        ensures
            r@ == encoded(is_meta, attr_name@, v@),
    {
        if is_meta && str_eq(attr_name, "charset") {
            if str_eq(v, "utf-8") {
                AttrEdit::Keep
            } else {
                AttrEdit::Assign(String::from_str("utf-8"))
            }
        } else if str_eq(attr_name, "href") {
            AttrEdit::Assign(escape_href(v))
        } else {
            AttrEdit::Assign(escape_html(v))
        }
    }

    /// What becomes of attribute `attr_name` with raw value `attr_val` on an
    /// element of slot `slot`.
    pub fn sanitize_attribute(&self, slot: usize, attr_name: &str, attr_val: &str) -> (r: AttrEdit)
        requires
            self.wf(),
            slot < TAG_COUNT,
        ensures
            r@ == self.attr_outcome(slot as int, attr_name@, attr_val@),
    {
        if attr_val.unicode_len() == 0 {
            return AttrEdit::Remove;
        }
        let trimmed = trim_start(attr_val);
        let decoded = unescape_html(trimmed.as_str());
        match self.should_keep_attribute(slot, attr_name, decoded.as_str()) {
            None => AttrEdit::Remove,
            Some(v) => Self::encode_attribute(slot == META_INDEX, attr_name, v.as_str()),
        }
    }

    /// The plan for an element named `tag_name` with the attributes
    /// `attributes` (name and raw value each): first the element decision,
    /// then, for a kept element, the comment-injection guard or one edit per
    /// attribute. Required attributes are not enforced: an element that lacks
    /// every attribute its tag requires is kept all the same.
    pub fn sanitize_attributes(&self, tag_name: &str, attributes: &Vec<(String, String)>) -> (r: ElementPlan)
        requires
            self.wf(),
        ensures
            ({
                let i = slot_of(tag_name@);
                let tag = tag_at(i);
                let f = self.sanitizer.flags@[i];
                let injected = exists|j: int| 0 <= j < attributes@.len() && #[trigger] opens_comment(attributes@[j].0@);
                &&& r.decision == element_decision(tag, f)
                &&& r.decision is Remove ==> r.attributes is Untouched
                &&& !(r.decision is Remove) && injected ==> (r.attributes matches AttributePlan::RemoveElement(x) && x == removal_for(tag, f))
                &&& !(r.decision is Remove) && !injected ==> (r.attributes matches AttributePlan::Edit(e) && e@.len() == attributes@.len()
                    && forall|j: int| 0 <= j < attributes@.len() ==> #[trigger] e@[j]@ == self.attr_outcome(i, attributes@[j].0@, attributes@[j].1@))
            }),
    {
        let decision = self.try_remove_element(tag_name);
        if let ElementDecision::Remove(_) = decision {
            return ElementPlan { decision, attributes: AttributePlan::Untouched };
        }
        let i = Sanitizer::<C>::slot(tag_name);
        let mut j: usize = 0;
        while j < attributes.len()
            invariant
                self.wf(),
                i < TAG_COUNT,
                i == slot_of(tag_name@),
                decision == element_decision(tag_at(i as int), self.sanitizer.flags@[i as int]),
                !(decision is Remove),
                j <= attributes@.len(),
                forall|m: int| 0 <= m < j ==> !#[trigger] opens_comment(attributes@[m].0@),
            decreases attributes.len() - j,
        {
            if starts_with(attributes[j].0.as_str(), "<!--") {
                assert(opens_comment(attributes@[j as int].0@));
                let removal = Self::remove_element(Tag::from_index(i), self.sanitizer.flags[i]);
                return ElementPlan { decision, attributes: AttributePlan::RemoveElement(removal) };
            }
            j = j + 1;
        }
        let mut edits: Vec<AttrEdit> = Vec::new();
        let mut j: usize = 0;
        while j < attributes.len()
            invariant
                self.wf(),
                i < TAG_COUNT,
                i == slot_of(tag_name@),
                decision == element_decision(tag_at(i as int), self.sanitizer.flags@[i as int]),
                !(decision is Remove),
                j <= attributes@.len(),
                edits@.len() == j,
                forall|m: int| 0 <= m < j ==> #[trigger] edits@[m]@ == self.attr_outcome(i as int, attributes@[m].0@, attributes@[m].1@),
            decreases attributes.len() - j,
        {
            let edit = self.sanitize_attribute(i, attributes[j].0.as_str(), attributes[j].1.as_str());
            edits.push(edit);
            j = j + 1;
        }
        ElementPlan { decision, attributes: AttributePlan::Edit(edits) }
    }
}

/// An attribute that neither the rules of its tag nor the global list allow
/// never survives, whatever its value.
pub proof fn lemma_unlisted_attribute_removed<C>(s: &SelmaSanitizer<C>, slot: int, name: Seq<char>, value: Seq<char>)
    requires
        !s.sanitizer.policy(slot).allowed_attrs.contains(name),
        !views(s.sanitizer.allowed_attrs@).contains(name),
    ensures
        s.attr_outcome(slot, name, value) is Remove,
{
}

/// A disallowed element with raw-text content (a script, a style) goes with
/// all of its content, whatever the other bits of its slot say.
pub proof fn lemma_text_content_removed_whole(tag: Tag, flags: u8)
    requires
        tag.has_text_content,
        flags & SELMA_SANITIZER_ALLOW == 0,
    ensures
        element_decision(tag, flags) matches ElementDecision::Remove(r) && r.remove_contents && !r.space_before
            && !r.space_after,
{
    assert(2u8 & 2u8 != 0) by (bit_vector);
}

} // verus!
