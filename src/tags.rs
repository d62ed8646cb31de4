//! The registry of known HTML tags. Each tag has a fixed index into the
//! per-tag tables; names the registry does not know map to the last index.
//!
//! Tags are laid out so that the void (self-closing) elements come first, then
//! the elements whose content is raw text, then the rest.

use vstd::prelude::*;

use crate::text::str_eq;

verus! {

/// The number of slots in a per-tag table, the fallback slot included.
pub const TAG_COUNT: usize = 131;

/// The slot of names that the registry does not know.
pub const UNKNOWN_INDEX: usize = 130;

/// Void elements occupy the indices below this one.
pub const SELF_CLOSING_END: usize = 15;

/// Elements with raw-text content occupy the indices from `SELF_CLOSING_END` up to this one.
pub const TEXT_CONTENT_END: usize = 25;

pub const META_INDEX: usize = 10;

pub const IFRAME_INDEX: usize = 15;

/// A known tag: its slot and what the markup rules say of it.
#[derive(Clone, Copy, Debug, PartialEq, Eq, Structural)]
pub struct Tag {
    pub index: usize,
    pub self_closing: bool,
    pub has_text_content: bool,
}

/// The name registered at `i`; the fallback slot has the name `unknown`.
pub open spec fn spec_tag_name(i: usize) -> Seq<char> {
    match i {
        0 => "area"@,
        1 => "base"@,
        2 => "br"@,
        3 => "col"@,
        4 => "embed"@,
        5 => "hr"@,
        6 => "img"@,
        7 => "input"@,
        8 => "keygen"@,
        9 => "link"@,
        10 => "meta"@,
        11 => "param"@,
        12 => "source"@,
        13 => "track"@,
        14 => "wbr"@,
        15 => "iframe"@,
        16 => "noembed"@,
        17 => "noframes"@,
        18 => "noscript"@,
        19 => "plaintext"@,
        20 => "script"@,
        21 => "style"@,
        22 => "textarea"@,
        23 => "title"@,
        24 => "xmp"@,
        25 => "a"@,
        26 => "abbr"@,
        27 => "acronym"@,
        28 => "address"@,
        29 => "article"@,
        30 => "aside"@,
        31 => "audio"@,
        32 => "b"@,
        33 => "bdi"@,
        34 => "bdo"@,
        35 => "big"@,
        36 => "blockquote"@,
        37 => "body"@,
        38 => "button"@,
        39 => "canvas"@,
        40 => "caption"@,
        41 => "center"@,
        42 => "cite"@,
        43 => "code"@,
        44 => "colgroup"@,
        45 => "data"@,
        46 => "datalist"@,
        47 => "dd"@,
        48 => "del"@,
        49 => "details"@,
        50 => "dfn"@,
        51 => "dialog"@,
        52 => "dir"@,
        53 => "div"@,
        54 => "dl"@,
        55 => "dt"@,
        56 => "em"@,
        57 => "fieldset"@,
        58 => "figcaption"@,
        59 => "figure"@,
        60 => "font"@,
        61 => "footer"@,
        62 => "form"@,
        63 => "frame"@,
        64 => "frameset"@,
        65 => "h1"@,
        66 => "h2"@,
        67 => "h3"@,
        68 => "h4"@,
        69 => "h5"@,
        70 => "h6"@,
        71 => "head"@,
        72 => "header"@,
        73 => "hgroup"@,
        74 => "html"@,
        75 => "i"@,
        76 => "ins"@,
        77 => "kbd"@,
        78 => "label"@,
        79 => "legend"@,
        80 => "li"@,
        81 => "main"@,
        82 => "map"@,
        83 => "mark"@,
        84 => "math"@,
        85 => "menu"@,
        86 => "meter"@,
        87 => "nav"@,
        88 => "nobr"@,
        89 => "object"@,
        90 => "ol"@,
        91 => "optgroup"@,
        92 => "option"@,
        93 => "output"@,
        94 => "p"@,
        95 => "picture"@,
        96 => "pre"@,
        97 => "progress"@,
        98 => "q"@,
        99 => "rp"@,
        100 => "rt"@,
        101 => "ruby"@,
        102 => "s"@,
        103 => "samp"@,
        104 => "search"@,
        105 => "section"@,
        106 => "select"@,
        107 => "slot"@,
        108 => "small"@,
        109 => "span"@,
        110 => "strike"@,
        111 => "strong"@,
        112 => "sub"@,
        113 => "summary"@,
        114 => "sup"@,
        115 => "svg"@,
        116 => "table"@,
        117 => "tbody"@,
        118 => "td"@,
        119 => "template"@,
        120 => "tfoot"@,
        121 => "th"@,
        122 => "thead"@,
        123 => "time"@,
        124 => "tr"@,
        125 => "tt"@,
        126 => "u"@,
        127 => "ul"@,
        128 => "var"@,
        129 => "video"@,
        _ => "unknown"@,
    }
}

/// The slot of the first tag at or after `i` whose name is `name`.
pub open spec fn index_from(name: Seq<char>, i: int) -> int
    decreases UNKNOWN_INDEX - i,
{
    if i < 0 || i >= UNKNOWN_INDEX {
        UNKNOWN_INDEX as int
    } else if spec_tag_name(i as usize) == name {
        i
    } else {
        index_from(name, i + 1)
    }
}

/// The slot of a (lower-case) name: the tag of that name, or the fallback slot.
pub open spec fn tag_index(name: Seq<char>) -> int {
    index_from(name, 0)
}

/// The tag that occupies slot `i`.
pub open spec fn tag_at(i: int) -> Tag {
    Tag {
        index: i as usize,
        self_closing: i < SELF_CLOSING_END,
        has_text_content: SELF_CLOSING_END <= i < TEXT_CONTENT_END,
    }
}

pub proof fn lemma_index_from_bounds(name: Seq<char>, i: int)
    requires
        0 <= i,
    ensures
        0 <= index_from(name, i) <= UNKNOWN_INDEX,
        index_from(name, i) < UNKNOWN_INDEX ==> spec_tag_name(index_from(name, i) as usize) == name,
    decreases UNKNOWN_INDEX - i,
{
    if i < UNKNOWN_INDEX && spec_tag_name(i as usize) != name {
        lemma_index_from_bounds(name, i + 1);
    }
}

/// The name registered at slot `i`.
pub fn tag_name(i: usize) -> (r: &'static str)
    requires
        i < TAG_COUNT,
    ensures
        r@ == spec_tag_name(i),
{
    match i {
        0 => "area",
        1 => "base",
        2 => "br",
        3 => "col",
        4 => "embed",
        5 => "hr",
        6 => "img",
        7 => "input",
        8 => "keygen",
        9 => "link",
        10 => "meta",
        11 => "param",
        12 => "source",
        13 => "track",
        14 => "wbr",
        15 => "iframe",
        16 => "noembed",
        17 => "noframes",
        18 => "noscript",
        19 => "plaintext",
        20 => "script",
        21 => "style",
        22 => "textarea",
        23 => "title",
        24 => "xmp",
        25 => "a",
        26 => "abbr",
        27 => "acronym",
        28 => "address",
        29 => "article",
        30 => "aside",
        31 => "audio",
        32 => "b",
        33 => "bdi",
        34 => "bdo",
        35 => "big",
        36 => "blockquote",
        37 => "body",
        38 => "button",
        39 => "canvas",
        40 => "caption",
        41 => "center",
        42 => "cite",
        43 => "code",
        44 => "colgroup",
        45 => "data",
        46 => "datalist",
        47 => "dd",
        48 => "del",
        49 => "details",
        50 => "dfn",
        51 => "dialog",
        52 => "dir",
        53 => "div",
        54 => "dl",
        55 => "dt",
        56 => "em",
        57 => "fieldset",
        58 => "figcaption",
        59 => "figure",
        60 => "font",
        61 => "footer",
        62 => "form",
        63 => "frame",
        64 => "frameset",
        65 => "h1",
        66 => "h2",
        67 => "h3",
        68 => "h4",
        69 => "h5",
        70 => "h6",
        71 => "head",
        72 => "header",
        73 => "hgroup",
        74 => "html",
        75 => "i",
        76 => "ins",
        77 => "kbd",
        78 => "label",
        79 => "legend",
        80 => "li",
        81 => "main",
        82 => "map",
        83 => "mark",
        84 => "math",
        85 => "menu",
        86 => "meter",
        87 => "nav",
        88 => "nobr",
        89 => "object",
        90 => "ol",
        91 => "optgroup",
        92 => "option",
        93 => "output",
        94 => "p",
        95 => "picture",
        96 => "pre",
        97 => "progress",
        98 => "q",
        99 => "rp",
        100 => "rt",
        101 => "ruby",
        102 => "s",
        103 => "samp",
        104 => "search",
        105 => "section",
        106 => "select",
        107 => "slot",
        108 => "small",
        109 => "span",
        110 => "strike",
        111 => "strong",
        112 => "sub",
        113 => "summary",
        114 => "sup",
        115 => "svg",
        116 => "table",
        117 => "tbody",
        118 => "td",
        119 => "template",
        120 => "tfoot",
        121 => "th",
        122 => "thead",
        123 => "time",
        124 => "tr",
        125 => "tt",
        126 => "u",
        127 => "ul",
        128 => "var",
        129 => "video",
        _ => "unknown",
    }
}

impl Tag {
    /// The tag at slot `index`.
    pub fn from_index(index: usize) -> (r: Tag)
        requires
            index < TAG_COUNT,
        ensures
            r == tag_at(index as int),
    {
        Tag {
            index,
            self_closing: index < SELF_CLOSING_END,
            has_text_content: SELF_CLOSING_END <= index && index < TEXT_CONTENT_END,
        }
    }

    /// The tag of a lower-case name; unknown names give the fallback slot.
    pub fn tag_from_element_name(name: &str) -> (r: Tag)
        ensures
            r == tag_at(tag_index(name@)),
            r.index < TAG_COUNT,
    {
        let mut i: usize = 0;
        while i < UNKNOWN_INDEX
            invariant
                i <= UNKNOWN_INDEX,
                index_from(name@, 0) == index_from(name@, i as int),
            decreases UNKNOWN_INDEX - i,
        {
            if str_eq(name, tag_name(i)) {
                return Tag::from_index(i);
            }
            i = i + 1;
        }
        Tag::from_index(UNKNOWN_INDEX)
    }

    pub fn is_meta(tag: Tag) -> (r: bool)
        ensures
            r == (tag.index == META_INDEX),
    {
        tag.index == META_INDEX
    }

    pub fn is_iframe(tag: Tag) -> (r: bool)
        ensures
            r == (tag.index == IFRAME_INDEX),
    {
        tag.index == IFRAME_INDEX
    }

    pub fn has_text_content(tag: Tag) -> (r: bool)
        ensures
            r == tag.has_text_content,
    {
        tag.has_text_content
    }
}

} // verus!
