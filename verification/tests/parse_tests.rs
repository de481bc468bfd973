use rss2email::feedxml::{extract_items, parse, Event};

#[test]
fn well_formed_items_before_malformed_tail_all_come_out() {
    let body = "<rss><channel>\
        <item><title>A</title><link>http://a.example/1</link><description>da</description></item>\
        <item><title>B</title><link>http://a.example/2</link><description>db</description></item>\
        <<<this is not xml";
    let items = parse(body);
    assert_eq!(items.len(), 2);
    assert_eq!(items[0].title, "A");
    assert_eq!(items[0].link, "http://a.example/1");
    assert_eq!(items[0].desc, "da");
    assert_eq!(items[1].title, "B");
}

#[test]
fn malformed_before_any_item_yields_nothing() {
    let items = parse("<rss><item><title>A</t");
    assert_eq!(items.len(), 0);
}

#[test]
fn second_title_overwrites_first() {
    let body = "<rss><channel>\
        <item><title>first</title><title>second</title></item>\
        </channel></rss>";
    let items = parse(body);
    assert_eq!(items.len(), 1);
    assert_eq!(items[0].title, "second");
}

#[test]
fn missing_fields_default_to_empty() {
    let body = "<rss><item><link>http://a.example/only-link</link></item></rss>";
    let items = parse(body);
    assert_eq!(items.len(), 1);
    assert_eq!(items[0].title, "");
    assert_eq!(items[0].desc, "");
    assert_eq!(items[0].link, "http://a.example/only-link");
}

#[test]
fn namespace_prefixes_are_ignored() {
    let body = "<rss xmlns:media=\"http://m.example/ns\">\
        <item><media:title>T</media:title></item></rss>";
    let items = parse(body);
    assert_eq!(items.len(), 1);
    assert_eq!(items[0].title, "T");
}

#[test]
fn cdata_counts_as_text() {
    let body = "<rss><item><description><![CDATA[<b>raw</b>]]></description></item></rss>";
    let items = parse(body);
    assert_eq!(items.len(), 1);
    assert_eq!(items[0].desc, "<b>raw</b>");
}

#[test]
fn document_without_items_yields_nothing() {
    assert_eq!(parse("<rss><channel><title>just a channel</title></channel></rss>").len(), 0);
    assert_eq!(parse("").len(), 0);
}

#[test]
fn state_machine_emits_on_item_end_only() {
    let evs = vec![
        Event::Start("title".to_string()),
        Event::Text("T".to_string()),
        Event::End("title".to_string()),
        Event::Other,
        Event::Start("link".to_string()),
        Event::Text("L".to_string()),
        Event::End("channel".to_string()),
        Event::End("item".to_string()),
    ];
    let items = extract_items(&evs);
    assert_eq!(items.len(), 1);
    assert_eq!(items[0].title, "T");
    assert_eq!(items[0].link, "L");
    assert_eq!(items[0].desc, "");
}

#[test]
fn text_outside_known_tags_is_dropped() {
    let evs = vec![
        Event::Start("pubDate".to_string()),
        Event::Text("yesterday".to_string()),
        Event::End("item".to_string()),
    ];
    let items = extract_items(&evs);
    assert_eq!(items.len(), 1);
    assert_eq!(items[0].title, "");
    assert_eq!(items[0].desc, "");
    assert_eq!(items[0].link, "");
}

#[test]
fn second_item_starts_from_a_fresh_accumulator() {
    let body = "<rss>\
        <item><title>A</title><description>da</description></item>\
        <item><title>B</title></item></rss>";
    let items = parse(body);
    assert_eq!(items.len(), 2);
    assert_eq!(items[1].title, "B");
    assert_eq!(items[1].desc, "");
}
