use templating::echo::{echo_route, reverse_body, uppercase_chunk, EchoRoute};
use templating::manual::{html_manual_front, html_page, manual_link, manual_route, ManualRoute};
use templating::routes::{hint_message, top_route, TopRoute};
use templating::{a, p, str_eq, str_starts_with, Element, NormalElement, TextElement, VoidElement, A, P};

#[test]
fn f() {
    let text = TextElement { text: "hey".to_string() };
    let mut p = NormalElement {
        element_name: "p".to_string(),
        children: vec![],
        attributes: vec![],
    };

    assert_eq!(p.render(), "<p></p>".to_string());
    p.children.push(Element::Text(text));
    assert_eq!(p.render(), "<p>hey</p>".to_string());
    p.attributes.push(("class".to_string(), "blue".to_string()));
    assert_eq!(p.render(), r#"<p class="blue">hey</p>"#.to_string());
}

#[test]
fn f2() {
    let paragraph_with_link = NormalElement {
        element_name: "p".to_string(),
        children: vec![Element::Normal(NormalElement {
            element_name: "a".to_string(),
            children: vec![Element::Text(TextElement { text: "DuckDuckGo".to_string() })],
            attributes: vec![("href".to_string(), "https://www.duckduckgo.com".to_string())],
        })],
        attributes: vec![],
    };
    assert_eq!(
        paragraph_with_link.render(),
        r#"<p><a href="https://www.duckduckgo.com">DuckDuckGo</a></p>"#.to_string()
    );

    assert_eq!(
        p().add_normal_element(a().text("DuckDuckGo").attr("href", "https://www.duckduckgo.com"))
            .render(),
        r#"<p><a href="https://www.duckduckgo.com">DuckDuckGo</a></p>"#
    )
}

#[test]
fn childless_element_renders_as_open_close_pair() {
    let div = NormalElement {
        element_name: "div".to_string(),
        children: vec![],
        attributes: vec![],
    };
    assert_eq!(div.render(), "<div></div>");
    let empty_name = NormalElement {
        element_name: "".to_string(),
        children: vec![],
        attributes: vec![],
    };
    assert_eq!(empty_name.render(), "<></>");
}

#[test]
fn void_element_renders_self_closing() {
    let br = VoidElement { element_name: "br".to_string() };
    assert_eq!(br.render(), "<br />");
    let hr = VoidElement { element_name: "hr".to_string() };
    assert_eq!(hr.render(), "<hr />");
}

#[test]
fn text_renders_verbatim_without_escaping() {
    let raw = TextElement { text: "<&>\"'".to_string() };
    assert_eq!(raw.render(), "<&>\"'");
    let empty = TextElement { text: "".to_string() };
    assert_eq!(empty.render(), "");
}

#[test]
fn child_order_shows_in_output() {
    let first = p()
        .add_normal_element(a().text("one"))
        .add_normal_element(a().text("two"));
    let second = p()
        .add_normal_element(a().text("two"))
        .add_normal_element(a().text("one"));
    assert_eq!(first.render(), "<p><a>one</a><a>two</a></p>");
    assert_eq!(second.render(), "<p><a>two</a><a>one</a></p>");
    assert_ne!(first.render(), second.render());
}

#[test]
fn attribute_last_write_wins() {
    let node = p().attr("class", "red").attr("class", "blue");
    assert_eq!(node.render(), r#"<p class="blue"></p>"#);
    assert_eq!(node.attributes.len(), 1);
}

#[test]
fn attribute_mixed_with_children() {
    let node = p().text("hey").attr("class", "blue");
    assert_eq!(node.render(), r#"<p class="blue">hey</p>"#);
}

#[test]
fn anchor_fragment_renders() {
    let anchor = A { content: "DuckDuckGo".to_string(), link: "https://www.duckduckgo.com".to_string() };
    assert_eq!(anchor.render(), r#"<a href="https://www.duckduckgo.com">DuckDuckGo</a>"#);
}

#[test]
fn paragraph_fragment_renders_contents_in_order() {
    let par = P {
        content: vec![
            Element::Text(TextElement { text: "see ".to_string() }),
            Element::Normal(a().text("here")),
            Element::Void(VoidElement { element_name: "br".to_string() }),
        ],
    };
    assert_eq!(par.render(), "<p>see <a>here</a><br /></p>");
    let empty = P { content: vec![] };
    assert_eq!(empty.render(), "<p></p>");
}

#[test]
fn echo_routing() {
    assert_eq!(echo_route(true, "/echo"), EchoRoute::Echo);
    assert_eq!(echo_route(true, "/echo/uppercase"), EchoRoute::Uppercase);
    assert_eq!(echo_route(true, "/echo/reverse"), EchoRoute::Reverse);
    assert_eq!(echo_route(true, "/echo/other"), EchoRoute::NotFound);
    assert_eq!(echo_route(false, "/echo"), EchoRoute::NotFound);
}

#[test]
fn uppercase_transform() {
    assert_eq!(uppercase_chunk(b"Hello, World! 123"), b"HELLO, WORLD! 123".to_vec());
    assert_eq!(uppercase_chunk(b"abcz{"), b"ABCZ{".to_vec());
    assert_eq!(uppercase_chunk(b""), Vec::<u8>::new());
}

#[test]
fn reverse_transform() {
    assert_eq!(reverse_body(b"abc"), b"cba".to_vec());
    assert_eq!(reverse_body(b""), Vec::<u8>::new());
    assert_eq!(reverse_body(b"x"), b"x".to_vec());
}

#[test]
fn manual_routing() {
    assert_eq!(manual_route("/manual"), ManualRoute::Front);
    assert_eq!(manual_route("/manual/foo"), ManualRoute::Foo);
    assert_eq!(manual_route("/manual/bar"), ManualRoute::Bar);
    assert_eq!(manual_route("/manual/baz"), ManualRoute::NotFound);
}

#[test]
fn manual_pages() {
    assert_eq!(
        html_page("hi"),
        "<!DOCTYPE html><html><head><meta charset=\"UTF-8\"><title>manual</title></head><body>hi</body></html>"
    );
    assert_eq!(
        manual_link("foo", "http://localhost:12345/manual/foo"),
        r#"<p><a href="http://localhost:12345/manual/foo">foo</a></p>"#
    );
    assert_eq!(
        html_manual_front(),
        "<!DOCTYPE html><html><head><meta charset=\"UTF-8\"><title>manual</title></head><body>\
         <p><a href=\"http://localhost:12345/manual/foo\">foo</a></p>\
         <p><a href=\"http://localhost:12345/manual/bar\">bar</a></p>\
         </body></html>"
    );
}

#[test]
fn top_routing() {
    assert_eq!(top_route("/"), TopRoute::Hint);
    assert_eq!(top_route("/echo"), TopRoute::Echo);
    assert_eq!(top_route("/echo/uppercase"), TopRoute::Echo);
    assert_eq!(top_route("/manual"), TopRoute::Manual);
    assert_eq!(top_route("/manual/foo"), TopRoute::Manual);
    assert_eq!(top_route("/elsewhere"), TopRoute::NotFound);
    assert_eq!(top_route(""), TopRoute::NotFound);
    assert_eq!(hint_message(), "Try POSTing data to /echo");
}

#[test]
fn string_helpers() {
    assert!(str_eq("abc", "abc"));
    assert!(!str_eq("abc", "abd"));
    assert!(!str_eq("abc", "abcd"));
    assert!(str_eq("", ""));
    assert!(str_starts_with("/echo/uppercase", "/echo"));
    assert!(str_starts_with("/echo", "/echo"));
    assert!(!str_starts_with("/ech", "/echo"));
    assert!(!str_starts_with("/manual", "/echo"));
}
