use onmsctl::provisioning::rest::{
    default_foreign_source, foreign_source, import, node, nodes, requisition, requisition_names,
};
use percent_encoding::{utf8_percent_encode, CONTROLS};

#[test]
fn paths_name_each_endpoint() {
    assert_eq!(requisition_names(), "rest/requisitionNames");
    assert_eq!(requisition("acme-prod"), "rest/requisitions/acme-prod");
    assert_eq!(import("acme-prod", true), "rest/requisitions/acme-prod/import?rescanExisting=true");
    assert_eq!(import("acme-prod", false), "rest/requisitions/acme-prod/import?rescanExisting=false");
    assert_eq!(nodes("acme"), "rest/requisitions/acme/nodes");
    assert_eq!(node("acme", "web 01"), "rest/requisitions/acme/nodes/web%2001");
    assert_eq!(foreign_source("acme"), "rest/foreignSources/acme");
    assert_eq!(default_foreign_source(), "rest/foreignSources/default");
}

#[test]
fn segments_escape_separators_and_keep_safe_characters() {
    assert_eq!(requisition("a/b?c#d%e"), "rest/requisitions/a%2Fb%3Fc%23d%25e");
    assert_eq!(requisition("ok-_.~name"), "rest/requisitions/ok-_.~name");
    assert_eq!(requisition("zürich"), "rest/requisitions/z%C3%BCrich");
}

#[test]
fn segments_agree_with_percent_encoding() {
    let set: &'static percent_encoding::AsciiSet = Box::leak(Box::new(CONTROLS
        .add(b' ')
        .add(b'"')
        .add(b'<')
        .add(b'>')
        .add(b'\\')
        .add(b'^')
        .add(b'`')
        .add(b'{')
        .add(b'|')
        .add(b'}')
        .add(b'/')
        .add(b'?')
        .add(b'#')
        .add(b'%')
        .add(b'&')
        .add(b'=')
        .add(b'+')
        .add(b';')
        .add(b'@')
        .add(b'[')
        .add(b']')));
    let names = [
        "acme-prod", "a b", "x/y", "q?r", "h#t", "p%20", "a&b=c+d;e@f[g]", "\u{1}\u{7f}",
        "<\"^`{|}>\\", "zürich", "日本", "emoji 🙂", "!$'()*,:", "",
    ];
    for n in names {
        let expected = format!("rest/requisitions/{}", utf8_percent_encode(n, set));
        assert_eq!(requisition(n), expected, "name {n:?}");
    }
}
