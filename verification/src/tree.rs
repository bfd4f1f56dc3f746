//! The HTML element tree: a closed set of three node kinds (element with
//! children, self-closing element, text leaf), builder-style construction,
//! and a recursive renderer producing one finished string.
//!
//! The renderer's behaviour is pinned down by the spec functions
//! [`spec_render_element`], [`spec_render_normal`], [`spec_render_void`] and
//! [`spec_render_children`]: every `render` method returns exactly the
//! character sequence those functions describe. No escaping is performed
//! anywhere; text and attribute values are emitted verbatim.

use vstd::prelude::*;
use vstd::string::*;
use crate::strings::str_eq;

verus! {

/// A leaf node holding raw text, rendered verbatim with no escaping.
pub struct TextElement {
    pub text: String,
}

/// A named node with no children and no attributes, rendered self-closing.
pub struct VoidElement {
    pub element_name: String,
}

/// A named container node holding ordered children and an attribute list.
///
/// Attributes live in a vector of key/value pairs; the builder method
/// [`NormalElement::attr`] keeps keys unique (last write wins), and the
/// renderer emits the entries in storage order.
pub struct NormalElement {
    pub element_name: String,
    pub children: Vec<Element>,
    pub attributes: Vec<(String, String)>,
}

/// The closed node kind: every tree node is one of these three variants.
pub enum Element {
    Normal(NormalElement),
    Void(VoidElement),
    Text(TextElement),
}

/// The view of an attribute list: each key and value as a character sequence.
pub open spec fn attrs_view(attrs: Seq<(String, String)>) -> Seq<(Seq<char>, Seq<char>)> {
    attrs.map_values(|p: (String, String)| (p.0@, p.1@))
}

/// One rendered attribute: a space, the key, `="`, the value, `"`.
pub open spec fn spec_render_attr(attr: (Seq<char>, Seq<char>)) -> Seq<char> {
    " "@ + attr.0 + "=\""@ + attr.1 + "\""@
}

/// The rendered attribute list, entries in storage order.
pub open spec fn spec_render_attrs(attrs: Seq<(Seq<char>, Seq<char>)>) -> Seq<char>
    decreases attrs.len(),
{
    if attrs.len() == 0 {
        Seq::<char>::empty()
    } else {
        spec_render_attrs(attrs.drop_last()) + spec_render_attr(attrs.last())
    }
}

/// The rendered form of any node.
pub open spec fn spec_render_element(e: Element) -> Seq<char>
    decreases e,
{
    match e {
        Element::Normal(n) => spec_render_normal(n),
        Element::Void(v) => spec_render_void(v),
        Element::Text(t) => t.text@,
    }
}

/// The rendered form of a self-closing element: `<`, the name, ` />`.
pub open spec fn spec_render_void(v: VoidElement) -> Seq<char> {
    "<"@ + v.element_name@ + " />"@
}

/// The rendered form of a container element: open tag with attributes, the
/// children in storage order, then the closing tag.
pub open spec fn spec_render_normal(n: NormalElement) -> Seq<char>
    decreases n,
{
    "<"@ + n.element_name@ + spec_render_attrs(attrs_view(n.attributes@)) + ">"@
        + spec_render_children(n.children@) + "</"@ + n.element_name@ + ">"@
}

/// The concatenation of the rendered children, in order.
pub open spec fn spec_render_children(children: Seq<Element>) -> Seq<char>
    decreases children,
{
    if children.len() == 0 {
        Seq::<char>::empty()
    } else {
        spec_render_children(children.drop_last()) + spec_render_element(children.last())
    }
}

/// Some entry of `attrs` has the key `key`.
pub open spec fn has_attr_key(attrs: Seq<(Seq<char>, Seq<char>)>, key: Seq<char>) -> bool {
    exists|i: int| 0 <= i < attrs.len() && attrs[i].0 == key
}

/// No two entries of `attrs` share a key.
pub open spec fn attr_keys_unique(attrs: Seq<(Seq<char>, Seq<char>)>) -> bool {
    forall|i: int, j: int| 0 <= i < j < attrs.len() ==> attrs[i].0 != attrs[j].0
}

/// `attrs` holds exactly one entry with key `key`, and that entry's value is
/// `value`.
pub open spec fn attr_key_once_with(
    attrs: Seq<(Seq<char>, Seq<char>)>,
    key: Seq<char>,
    value: Seq<char>,
) -> bool {
    exists|i: int|
        0 <= i < attrs.len() && attrs[i] == (key, value) && (forall|j: int|
            0 <= j < attrs.len() && j != i ==> attrs[j].0 != key)
}

/// Inserting into the attribute list: every entry carrying `key` is replaced
/// by `(key, value)`; if no entry carries `key`, the pair is appended.
pub open spec fn spec_attr_set(
    attrs: Seq<(Seq<char>, Seq<char>)>,
    key: Seq<char>,
    value: Seq<char>,
) -> Seq<(Seq<char>, Seq<char>)> {
    if has_attr_key(attrs, key) {
        Seq::new(attrs.len(), |i: int| if attrs[i].0 == key { (key, value) } else { attrs[i] })
    } else {
        attrs.push((key, value))
    }
}

impl TextElement {
    /// Renders the node: the payload itself, untouched.
    pub fn render(&self) -> (r: String)
        ensures
            r@ == self.text@,
    {
        self.text.clone()
    }
}

impl VoidElement {
    /// Renders the node as a single self-closing tag.
    pub fn render(&self) -> (r: String)
        ensures
            r@ == spec_render_void(*self),
    {
        let mut out = String::new();
        out.append("<");
        out.append(self.element_name.as_str());
        out.append(" />");
        proof {
            assert(out@ =~= spec_render_void(*self));
        }
        out
    }
}

impl Element {
    /// Renders the tree rooted at this node into one finished string.
    pub fn render(&self) -> (r: String)
        ensures
            r@ == spec_render_element(*self),
    {
        let mut out = String::new();
        self.render_into(&mut out);
        out
    }

    fn render_into(&self, out: &mut String)
        ensures
            final(out)@ == old(out)@ + spec_render_element(*self),
        decreases *self,
    {
        match self {
            Element::Normal(n) => {
                n.render_into(out);
            },
            Element::Void(v) => {
                out.append("<");
                out.append(v.element_name.as_str());
                out.append(" />");
                proof {
                    assert(out@ =~= old(out)@ + spec_render_element(*self));
                }
            },
            Element::Text(t) => {
                out.append(t.text.as_str());
            },
        }
    }
}

fn render_children_into(children: &Vec<Element>, out: &mut String)
    ensures
        final(out)@ == old(out)@ + spec_render_children(children@),
    decreases *children,
{
    let ghost base = out@;
    let mut i: usize = 0;
    while i < children.len()
        invariant
            i <= children.len(),
            out@ == base + spec_render_children(children@.take(i as int)),
        decreases children.len() - i,
    {
        let ghost prev = out@;
        let child = &children[i];
        proof {
            assert(decreases_to!(*children => children@));
            assert(decreases_to!(children@ => children@[i as int]));
        }
        child.render_into(out);
        proof {
            let taken = children@.take(i + 1 as int);
            assert(taken.drop_last() =~= children@.take(i as int));
            assert(taken.last() == children@[i as int]);
            assert(out@ == base + spec_render_children(taken)) by {
                assert(out@ == prev + spec_render_element(children@[i as int]));
                assert(out@ =~= base + (spec_render_children(taken.drop_last())
                    + spec_render_element(taken.last())));
            }
        }
        i += 1;
    }
    proof {
        assert(children@.take(children@.len() as int) =~= children@);
    }
}

impl NormalElement {
    /// Appends a text child holding `text` and returns the node, so that
    /// calls can be chained. The payload is taken verbatim; the rest of the
    /// node is untouched.
    pub fn text(self, text: &str) -> (r: NormalElement)
        ensures
            r.element_name == self.element_name,
            r.attributes == self.attributes,
            r.children@.len() == self.children@.len() + 1,
            r.children@.drop_last() == self.children@,
            (r.children@.last() matches Element::Text(t) && t.text@ == text@),
    {
        let mut s = self;
        s.children.push(Element::Text(TextElement { text: text.to_owned() }));
        proof {
            assert(s.children@.drop_last() =~= self.children@);
        }
        s
    }

    /// Appends a fully formed child element and returns the node, so that
    /// calls can be chained. The rest of the node is untouched.
    pub fn add_normal_element(self, normal_element: NormalElement) -> (r: NormalElement)
        ensures
            r.element_name == self.element_name,
            r.attributes == self.attributes,
            r.children@ == self.children@.push(Element::Normal(normal_element)),
    {
        let mut s = self;
        s.children.push(Element::Normal(normal_element));
        s
    }

    /// Inserts or overwrites the attribute entry for `attribute`: last write
    /// wins, no duplicate key is ever introduced. The rest of the node is
    /// untouched, and the node is returned so that calls can be chained.
    pub fn attr(self, attribute: &str, value: &str) -> (r: NormalElement)
        ensures
            r.element_name == self.element_name,
            r.children == self.children,
            attrs_view(r.attributes@) == spec_attr_set(
                attrs_view(self.attributes@),
                attribute@,
                value@,
            ),
    {
        let ghost orig = attrs_view(self.attributes@);
        let mut s = self;
        let mut new_attrs: Vec<(String, String)> = Vec::new();
        let mut found = false;
        let mut i: usize = 0;
        while i < s.attributes.len()
            invariant
                i <= s.attributes.len(),
                orig == attrs_view(s.attributes@),
                orig.len() == s.attributes@.len(),
                found == has_attr_key(orig.take(i as int), attribute@),
                new_attrs@.len() == i,
                forall|j: int|
                    0 <= j < i ==> (#[trigger] new_attrs@[j].0@, new_attrs@[j].1@) == (
                    if orig[j].0 == attribute@ {
                        (attribute@, value@)
                    } else {
                        orig[j]
                    }),
            decreases s.attributes.len() - i,
        {
            let pair = &s.attributes[i];
            let ghost prev_found = found;
            let ghost prev_new = new_attrs@;
            proof {
                assert(orig[i as int] == (s.attributes@[i as int].0@, s.attributes@[i as int].1@));
            }
            if str_eq(pair.0.as_str(), attribute) {
                new_attrs.push((attribute.to_owned(), value.to_owned()));
                found = true;
                proof {
                    assert(orig[i as int].0 == attribute@);
                    assert(new_attrs@[i as int].0@ == attribute@);
                    assert(new_attrs@[i as int].1@ == value@);
                }
            } else {
                new_attrs.push((pair.0.clone(), pair.1.clone()));
                proof {
                    assert(orig[i as int].0 != attribute@);
                    assert(new_attrs@[i as int].0@ == orig[i as int].0);
                    assert(new_attrs@[i as int].1@ == orig[i as int].1);
                }
            }
            proof {
                assert(new_attrs@.len() == i + 1);
                assert forall|j: int|
                    0 <= j < i + 1 implies (#[trigger] new_attrs@[j].0@, new_attrs@[j].1@) == (
                if orig[j].0 == attribute@ {
                    (attribute@, value@)
                } else {
                    orig[j]
                }) by {
                    if j < i {
                        assert(new_attrs@[j] == prev_new[j]);
                        assert((prev_new[j].0@, prev_new[j].1@) == (if orig[j].0 == attribute@ {
                            (attribute@, value@)
                        } else {
                            orig[j]
                        }));
                    }
                }
                let shorter = orig.take(i as int);
                let longer = orig.take(i + 1 as int);
                assert(shorter =~= longer.drop_last());
                assert(longer.last() == orig[i as int]);
                if orig[i as int].0 == attribute@ {
                    assert(has_attr_key(longer, attribute@));
                } else {
                    if has_attr_key(longer, attribute@) {
                        let w = choose|w: int|
                            0 <= w < longer.len() && longer[w].0 == attribute@;
                        if w < i {
                            assert(shorter[w].0 == attribute@);
                            assert(has_attr_key(shorter, attribute@));
                        }
                    }
                    assert(has_attr_key(longer, attribute@) == prev_found);
                }
            }
            i += 1;
        }
        proof {
            assert(orig.take(orig.len() as int) =~= orig);
            assert(found == has_attr_key(orig, attribute@));
        }
        let ghost kept = new_attrs@;
        if !found {
            new_attrs.push((attribute.to_owned(), value.to_owned()));
        }
        proof {
            let target = spec_attr_set(orig, attribute@, value@);
            if found {
                assert(target == Seq::new(
                    orig.len(),
                    |k: int|
                        if orig[k].0 == attribute@ {
                            (attribute@, value@)
                        } else {
                            orig[k]
                        },
                ));
                assert(new_attrs@.len() == target.len());
                assert forall|j: int| 0 <= j < new_attrs@.len() implies attrs_view(new_attrs@)[j]
                    == target[j] by {
                    assert(attrs_view(new_attrs@)[j] == (new_attrs@[j].0@, new_attrs@[j].1@));
                }
                assert(attrs_view(new_attrs@) =~= target);
            } else {
                assert(target == orig.push((attribute@, value@)));
                assert(new_attrs@ == kept.push((new_attrs@[orig.len() as int])));
                assert(new_attrs@.len() == target.len());
                assert forall|j: int| 0 <= j < new_attrs@.len() implies attrs_view(new_attrs@)[j]
                    == target[j] by {
                    assert(attrs_view(new_attrs@)[j] == (new_attrs@[j].0@, new_attrs@[j].1@));
                    if j < orig.len() {
                        assert(!has_attr_key(orig, attribute@));
                        assert(orig[j].0 != attribute@);
                        assert(new_attrs@[j] == kept[j]);
                        assert((kept[j].0@, kept[j].1@) == orig[j]);
                    } else {
                        assert(new_attrs@[j].0@ == attribute@);
                        assert(new_attrs@[j].1@ == value@);
                    }
                }
                assert(attrs_view(new_attrs@) =~= target);
            }
        }
        s.attributes = new_attrs;
        s
    }

    /// Renders the tree rooted at this element into one finished string.
    pub fn render(&self) -> (r: String)
        ensures
            r@ == spec_render_normal(*self),
    {
        let mut out = String::new();
        self.render_into(&mut out);
        out
    }

    fn render_into(&self, out: &mut String)
        ensures
            final(out)@ == old(out)@ + spec_render_normal(*self),
        decreases *self,
    {
        out.append("<");
        out.append(self.element_name.as_str());
        let ghost base = out@;
        let mut i: usize = 0;
        while i < self.attributes.len()
            invariant
                i <= self.attributes.len(),
                out@ == base + spec_render_attrs(attrs_view(self.attributes@.take(i as int))),
            decreases self.attributes.len() - i,
        {
            let ghost prev = out@;
            let pair = &self.attributes[i];
            out.append(" ");
            out.append(pair.0.as_str());
            out.append("=\"");
            out.append(pair.1.as_str());
            out.append("\"");
            proof {
                let taken = attrs_view(self.attributes@.take(i + 1 as int));
                assert(taken.drop_last() =~= attrs_view(self.attributes@.take(i as int)));
                assert(taken.last() == (self.attributes@[i as int].0@, self.attributes@[i as int].1@));
                assert(out@ == base + spec_render_attrs(taken)) by {
                    assert(out@ =~= base + (spec_render_attrs(taken.drop_last())
                        + spec_render_attr(taken.last())));
                }
            }
            i += 1;
        }
        proof {
            assert(self.attributes@.take(self.attributes@.len() as int) =~= self.attributes@);
            assert(attrs_view(self.attributes@.take(self.attributes@.len() as int))
                =~= attrs_view(self.attributes@));
        }
        out.append(">");
        render_children_into(&self.children, out);
        out.append("</");
        out.append(self.element_name.as_str());
        out.append(">");
        proof {
            assert(out@ =~= old(out)@ + spec_render_normal(*self));
        }
    }
}

/// An element with no children and no attributes renders as an open/close
/// tag pair with nothing between: `<` + name + `></` + name + `>`.
pub proof fn lemma_render_empty_element(n: NormalElement)
    requires
        n.children@.len() == 0,
        n.attributes@.len() == 0,
    ensures
        spec_render_normal(n) == "<"@ + n.element_name@ + "></"@ + n.element_name@ + ">"@,
{
    reveal_strlit(">");
    reveal_strlit("</");
    reveal_strlit("></");
    assert(attrs_view(n.attributes@).len() == 0);
    assert(spec_render_normal(n) =~= "<"@ + n.element_name@ + "></"@ + n.element_name@ + ">"@);
}

/// A void element renders as a single self-closing tag: `<` + name + ` />`.
pub proof fn lemma_render_void(v: VoidElement)
    ensures
        spec_render_element(Element::Void(v)) == "<"@ + v.element_name@ + " />"@,
{
}

/// A text node renders as its payload, identically: no escaping, no change.
pub proof fn lemma_render_text(t: TextElement)
    ensures
        spec_render_element(Element::Text(t)) == t.text@,
{
}

/// A pair of children renders as the first child's rendering followed by
/// the second child's rendering.
pub proof fn lemma_render_children_two(x: Element, y: Element)
    ensures
        spec_render_children(seq![x, y]) == spec_render_element(x) + spec_render_element(y),
{
    let s2 = seq![x, y];
    let s1 = seq![x];
    let s0 = Seq::<Element>::empty();
    assert(s2.drop_last() =~= s1);
    assert(s1.drop_last() =~= s0);
    assert(s2.last() == y);
    assert(s1.last() == x);
    assert(spec_render_children(s0) == Seq::<char>::empty());
    assert(spec_render_children(s1) == spec_render_children(s1.drop_last())
        + spec_render_element(s1.last()));
    assert(spec_render_children(s1) =~= spec_render_element(x));
    assert(spec_render_children(s2) == spec_render_children(s2.drop_last())
        + spec_render_element(s2.last()));
    assert(spec_render_children(s2) == spec_render_children(s1) + spec_render_element(y));
}

/// Child order is preserved in the output: two elements that agree on name
/// and attributes and hold the same two children in opposite order render
/// equally only when the children render identically. The equal-length
/// premise is needed: children whose renderings are different powers of one
/// word, such as text nodes `"a"` and `"aa"`, commute under concatenation.
pub proof fn lemma_child_order(n1: NormalElement, n2: NormalElement, x: Element, y: Element)
    requires
        n1.element_name == n2.element_name,
        n1.attributes == n2.attributes,
        n1.children@ == seq![x, y],
        n2.children@ == seq![y, x],
        spec_render_element(x).len() == spec_render_element(y).len(),
        spec_render_normal(n1) == spec_render_normal(n2),
    ensures
        spec_render_element(x) == spec_render_element(y),
{
    let rx = spec_render_element(x);
    let ry = spec_render_element(y);
    lemma_render_children_two(x, y);
    lemma_render_children_two(y, x);
    let pre = "<"@ + n1.element_name@ + spec_render_attrs(attrs_view(n1.attributes@)) + ">"@;
    let post = "</"@ + n1.element_name@ + ">"@;
    let w1 = spec_render_normal(n1);
    let w2 = spec_render_normal(n2);
    assert(w1 =~= pre + (rx + ry) + post);
    assert(w2 =~= pre + (ry + rx) + post);
    assert forall|k: int| 0 <= k < rx.len() + ry.len() implies (rx + ry)[k] == (ry + rx)[k] by {
        assert((pre + (rx + ry) + post)[pre.len() + k] == (rx + ry)[k]);
        assert((pre + (ry + rx) + post)[pre.len() + k] == (ry + rx)[k]);
    }
    assert(rx + ry =~= ry + rx);
    assert forall|k: int| 0 <= k < rx.len() implies rx[k] == ry[k] by {
        assert((rx + ry)[k] == rx[k]);
        assert((ry + rx)[k] == ry[k]);
    }
    assert(rx =~= ry);
}

/// Setting the same key twice leaves the attribute list exactly as if only
/// the second write had happened: the last value wins.
pub proof fn lemma_attr_set_last_wins(
    attrs: Seq<(Seq<char>, Seq<char>)>,
    key: Seq<char>,
    v1: Seq<char>,
    v2: Seq<char>,
)
    ensures
        spec_attr_set(spec_attr_set(attrs, key, v1), key, v2) == spec_attr_set(attrs, key, v2),
{
    let s1 = spec_attr_set(attrs, key, v1);
    let target = spec_attr_set(attrs, key, v2);
    if has_attr_key(attrs, key) {
        let w = choose|i: int| 0 <= i < attrs.len() && attrs[i].0 == key;
        assert(s1[w].0 == key);
        assert(has_attr_key(s1, key));
        assert forall|j: int| 0 <= j < s1.len() implies spec_attr_set(s1, key, v2)[j]
            == target[j] by {
            if attrs[j].0 == key {
                assert(s1[j] == (key, v1));
            } else {
                assert(s1[j] == attrs[j]);
            }
        }
        assert(spec_attr_set(s1, key, v2) =~= target);
    } else {
        assert(s1 == attrs.push((key, v1)));
        assert(s1[attrs.len() as int].0 == key);
        assert(has_attr_key(s1, key));
        assert(target == attrs.push((key, v2)));
        assert forall|j: int| 0 <= j < s1.len() implies spec_attr_set(s1, key, v2)[j]
            == target[j] by {
            if j < attrs.len() {
                assert(attrs[j].0 != key);
                assert(s1[j] == attrs[j]);
            } else {
                assert(s1[j] == (key, v1));
            }
        }
        assert(spec_attr_set(s1, key, v2) =~= target);
    }
}

/// On an attribute list with unique keys, a set keeps the keys unique and
/// leaves exactly one entry for the written key, holding the written value.
pub proof fn lemma_attr_set_key_once(
    attrs: Seq<(Seq<char>, Seq<char>)>,
    key: Seq<char>,
    value: Seq<char>,
)
    requires
        attr_keys_unique(attrs),
    ensures
        attr_keys_unique(spec_attr_set(attrs, key, value)),
        attr_key_once_with(spec_attr_set(attrs, key, value), key, value),
{
    let r = spec_attr_set(attrs, key, value);
    if has_attr_key(attrs, key) {
        let w = choose|i: int| 0 <= i < attrs.len() && attrs[i].0 == key;
        assert(r[w] == (key, value));
        assert forall|j: int| 0 <= j < r.len() implies r[j].0 == attrs[j].0 by {
            if attrs[j].0 == key {
                assert(r[j] == (key, value));
            } else {
                assert(r[j] == attrs[j]);
            }
        }
        assert forall|j: int| 0 <= j < r.len() && j != w implies r[j].0 != key by {
            if j < w {
                assert(attrs[j].0 != attrs[w].0);
            } else {
                assert(attrs[w].0 != attrs[j].0);
            }
        }
        assert(attr_key_once_with(r, key, value));
    } else {
        assert(r == attrs.push((key, value)));
        let w = attrs.len() as int;
        assert(r[w] == (key, value));
        assert forall|j: int| 0 <= j < r.len() && j != w implies r[j].0 != key by {
            assert(r[j] == attrs[j]);
            assert(!has_attr_key(attrs, key));
        }
        assert(attr_key_once_with(r, key, value));
    }
}

/// A ready-made anchor fragment: a link target and the visible text.
pub struct A {
    pub content: String,
    pub link: String,
}

/// The rendered form of [`A`]: `<a href="` + link + `">` + content + `</a>`.
pub open spec fn spec_render_anchor(anchor: A) -> Seq<char> {
    "<a href=\""@ + anchor.link@ + "\">"@ + anchor.content@ + "</a>"@
}

impl A {
    /// Renders the anchor into one finished string.
    pub fn render(&self) -> (r: String)
        ensures
            r@ == spec_render_anchor(*self),
    {
        let mut out = String::new();
        out.append("<a href=\"");
        out.append(self.link.as_str());
        out.append("\">");
        out.append(self.content.as_str());
        out.append("</a>");
        proof {
            assert(out@ =~= spec_render_anchor(*self));
        }
        out
    }
}

/// A ready-made paragraph fragment: a list of nodes rendered in order
/// between `<p>` and `</p>`.
pub struct P {
    pub content: Vec<Element>,
}

/// The rendered form of [`P`]: `<p>` + the contents in order + `</p>`.
pub open spec fn spec_render_paragraph(par: P) -> Seq<char> {
    "<p>"@ + spec_render_children(par.content@) + "</p>"@
}

impl P {
    /// Renders the paragraph into one finished string.
    pub fn render(&self) -> (r: String)
        ensures
            r@ == spec_render_paragraph(*self),
    {
        let mut out = String::new();
        out.append("<p>");
        render_children_into(&self.content, &mut out);
        out.append("</p>");
        proof {
            assert(out@ =~= spec_render_paragraph(*self));
        }
        out
    }
}

/// An empty paragraph element `<p>`: no children, no attributes.
pub fn p() -> (r: NormalElement)
    ensures
        r.element_name@ == "p"@,
        r.children@.len() == 0,
        r.attributes@.len() == 0,
{
    NormalElement { element_name: "p".to_owned(), children: Vec::new(), attributes: Vec::new() }
}

/// An empty anchor element `<a>`: no children, no attributes.
pub fn a() -> (r: NormalElement)
    ensures
        r.element_name@ == "a"@,
        r.children@.len() == 0,
        r.attributes@.len() == 0,
{
    NormalElement { element_name: "a".to_owned(), children: Vec::new(), attributes: Vec::new() }
}

} // verus!
