use orbit_notes::error::{CardField, Error};
use orbit_notes::orbit::{
    card_from_object, deck_from_objects, deserialize_orbit_codeblock, review_area, string_member,
    Orbit, OrbitCard, PROMPT_TEMPLATE,
};
use orbit_notes::template::{fill_template, template_outcome};

fn card(question: &str, attachments: &str, answer: &str) -> OrbitCard {
    OrbitCard::new(question.to_string(), attachments.to_string(), answer.to_string())
}

fn member(name: &str, text: Option<&str>) -> (String, Option<String>) {
    (name.to_string(), text.map(|t| t.to_string()))
}

#[test]
fn deck_of_one_card_has_one_widget() {
    let html = Orbit::new(vec![card("Q1", "", "A1")]).to_html().unwrap();
    assert_eq!(
        html,
        "<orbit-reviewarea><orbit-prompt question=\"Q1\" question-attachments=\"\" answer=\"A1\"></orbit-prompt></orbit-reviewarea>"
    );
}

#[test]
fn widget_of_a_card() {
    assert_eq!(
        card("What?", "img.png", "That.").to_html(),
        Ok("<orbit-prompt question=\"What?\" question-attachments=\"img.png\" answer=\"That.\"></orbit-prompt>".to_string())
    );
}

#[test]
fn fields_are_not_escaped() {
    assert_eq!(
        card("a < b & \"c\"", "<img src='x'>", "{{d}} \u{e9}").to_html(),
        Ok("<orbit-prompt question=\"a < b & \"c\"\" question-attachments=\"<img src='x'>\" answer=\"{{d}} \u{e9}\"></orbit-prompt>".to_string())
    );
}

#[test]
fn widgets_stand_in_the_order_of_the_cards() {
    let deck = Orbit::new(vec![card("1", "", "a"), card("2", "", "b"), card("1", "", "a")]);
    let html = deck.to_html().unwrap();
    let widget = |q: &str, a: &str| {
        format!("<orbit-prompt question=\"{}\" question-attachments=\"\" answer=\"{}\"></orbit-prompt>", q, a)
    };
    assert_eq!(
        html,
        format!(
            "<orbit-reviewarea>{}{}{}</orbit-reviewarea>",
            widget("1", "a"),
            widget("2", "b"),
            widget("1", "a")
        )
    );
    assert_eq!(html.matches("<orbit-prompt ").count(), 3);
}

#[test]
fn empty_deck_is_an_empty_container() {
    assert_eq!(
        Orbit::new(Vec::new()).to_html(),
        Ok("<orbit-reviewarea></orbit-reviewarea>".to_string())
    );
}

#[test]
fn review_area_joins_the_widgets() {
    assert_eq!(
        review_area(&vec!["<a>".to_string(), "".to_string(), "<b>".to_string()]),
        "<orbit-reviewarea><a><b></orbit-reviewarea>"
    );
}

#[test]
fn card_keeps_its_fields() {
    let c = card("q", "qa", "a");
    assert_eq!(c.question(), "q");
    assert_eq!(c.question_attachments(), "qa");
    assert_eq!(c.answer(), "a");
    let deck = Orbit::new(vec![card("q", "qa", "a"), card("r", "", "b")]);
    assert_eq!(deck.cards().len(), 2);
    assert_eq!(deck.cards()[1], card("r", "", "b"));
}

#[test]
fn deck_is_read_from_a_block() {
    let block = "```orbit\n[{\"question\":\"Q1\",\"question_attachments\":\"\",\"answer\":\"A1\"}]\n```";
    assert_eq!(deserialize_orbit_codeblock(block), Ok(Orbit::new(vec![card("Q1", "", "A1")])));
}

#[test]
fn block_with_one_card_gives_one_widget() {
    let block = "```orbit\n[{\"question\":\"Q1\",\"question_attachments\":\"\",\"answer\":\"A1\"}]\n```";
    let html = deserialize_orbit_codeblock(block).unwrap().to_html().unwrap();
    assert_eq!(html.matches("<orbit-prompt ").count(), 1);
    assert!(html.contains("question=\"Q1\""));
    assert!(html.contains("answer=\"A1\""));
}

#[test]
fn cards_are_read_in_order() {
    let block = "```orbit\n[\n {\"answer\":\"a\",\"question\":\"1\",\"question_attachments\":\"x\"},\n {\"question\":\"2\",\"question_attachments\":\"\",\"answer\":\"b\",\"more\":[1,2]}\n]\n```\n";
    assert_eq!(
        deserialize_orbit_codeblock(block),
        Ok(Orbit::new(vec![card("1", "x", "a"), card("2", "", "b")]))
    );
}

#[test]
fn what_stands_between_the_fences_is_cut_by_length() {
    assert_eq!(deserialize_orbit_codeblock("123456789[]abcd"), Ok(Orbit::new(Vec::new())));
    assert_eq!(deserialize_orbit_codeblock("\u{e9}2345678[]ab\u{e9}"), Ok(Orbit::new(Vec::new())));
    assert_eq!(deserialize_orbit_codeblock("12345678\u{e9}[]abcd"), Err(Error::DeckFrame));
    assert_eq!(deserialize_orbit_codeblock("123456789[]\u{21a9}bc"), Err(Error::DeckFrame));
    assert_eq!(
        deserialize_orbit_codeblock("123456789[{\"question\":\"\u{e9}\"}]abcd"),
        Err(Error::DeckField { card: 0, field: CardField::Attachments })
    );
    assert_eq!(deserialize_orbit_codeblock("```orbit  \n[]\n```"), Ok(Orbit::new(Vec::new())));
    assert!(matches!(
        deserialize_orbit_codeblock("```orbit x\n[]\n```"),
        Err(Error::DeckSyntax { .. })
    ));
}

#[test]
fn a_card_without_a_field_is_refused() {
    let block = "```orbit\n[{\"question\":\"Q1\",\"question_attachments\":\"\"}]\n```";
    assert_eq!(
        deserialize_orbit_codeblock(block),
        Err(Error::DeckField { card: 0, field: CardField::Answer })
    );
    let second = "```orbit\n[{\"question\":\"Q1\",\"question_attachments\":\"\",\"answer\":\"A\"},{\"answer\":\"A\"}]\n```";
    assert_eq!(
        deserialize_orbit_codeblock(second),
        Err(Error::DeckField { card: 1, field: CardField::Question })
    );
}

#[test]
fn a_field_that_is_no_string_is_refused() {
    let block = "```orbit\n[{\"question\":\"Q1\",\"question_attachments\":null,\"answer\":\"A\"}]\n```";
    assert_eq!(
        deserialize_orbit_codeblock(block),
        Err(Error::DeckField { card: 0, field: CardField::Attachments })
    );
    let number = "```orbit\n[{\"question\":1,\"question_attachments\":\"\",\"answer\":\"A\"}]\n```";
    assert_eq!(
        deserialize_orbit_codeblock(number),
        Err(Error::DeckField { card: 0, field: CardField::Question })
    );
}

#[test]
fn what_is_no_list_of_objects_is_refused() {
    for payload in ["", "{}", "[1]", "[[]]", "[{\"question\":}]", "[{}", "\"text\"", "[{}] x"] {
        let block = format!("```orbit\n{}\n```", payload);
        assert!(
            matches!(deserialize_orbit_codeblock(&block), Err(Error::DeckSyntax { .. })),
            "{}",
            payload
        );
    }
}

#[test]
fn a_block_too_short_for_its_fences_is_refused() {
    assert_eq!(deserialize_orbit_codeblock(""), Err(Error::DeckFrame));
    assert_eq!(deserialize_orbit_codeblock("```orbit"), Err(Error::DeckFrame));
    assert_eq!(deserialize_orbit_codeblock("```orbit\n```"), Err(Error::DeckFrame));
    assert!(matches!(deserialize_orbit_codeblock("```orbit\n\n```"), Err(Error::DeckSyntax { .. })));
}

#[test]
fn member_of_an_object() {
    let object = vec![member("a", Some("1")), member("b", None), member("a", Some("2"))];
    assert_eq!(string_member(&object, "a"), Some("1".to_string()));
    assert_eq!(string_member(&object, "b"), None);
    assert_eq!(string_member(&object, "c"), None);
    assert_eq!(string_member(&Vec::new(), "a"), None);
}

#[test]
fn card_of_an_object() {
    let object = vec![
        member("answer", Some("a")),
        member("question", Some("q")),
        member("question_attachments", Some("")),
    ];
    assert_eq!(card_from_object(&object), Ok(card("q", "", "a")));
    assert_eq!(card_from_object(&Vec::new()), Err(CardField::Question));
    assert_eq!(
        card_from_object(&vec![member("question", Some("q")), member("answer", Some("a"))]),
        Err(CardField::Attachments)
    );
    assert_eq!(
        card_from_object(&vec![
            member("question", Some("q")),
            member("question-attachments", Some("")),
            member("answer", Some("a"))
        ]),
        Err(CardField::Attachments)
    );
}

#[test]
fn deck_of_objects() {
    let good = vec![
        member("question", Some("q")),
        member("question_attachments", Some("")),
        member("answer", Some("a")),
    ];
    let bad = vec![member("question", Some("q")), member("question_attachments", Some(""))];
    assert_eq!(deck_from_objects(&Vec::new()), Ok(Orbit::new(Vec::new())));
    assert_eq!(deck_from_objects(&vec![good.clone()]), Ok(Orbit::new(vec![card("q", "", "a")])));
    assert_eq!(
        deck_from_objects(&vec![good.clone(), bad.clone(), Vec::new()]),
        Err(Error::DeckField { card: 1, field: CardField::Answer })
    );
}

#[test]
fn template_slots_are_filled() {
    let data = vec![
        ("question".to_string(), "<Q>".to_string()),
        ("answer".to_string(), "A".to_string()),
        ("other".to_string(), "x".to_string()),
    ];
    assert_eq!(
        fill_template(PROMPT_TEMPLATE, &data),
        Ok("<orbit-prompt question=\"<Q>\" question-attachments=\"\" answer=\"A\"></orbit-prompt>".to_string())
    );
    assert_eq!(
        fill_template(PROMPT_TEMPLATE, &Vec::new()),
        Ok("<orbit-prompt question=\"\" question-attachments=\"\" answer=\"\"></orbit-prompt>".to_string())
    );
}

#[test]
fn outcome_of_the_engine() {
    assert_eq!(template_outcome(Ok("text".to_string())), Ok("text".to_string()));
    assert_eq!(
        template_outcome(Err("bad".to_string())),
        Err(Error::Template { message: "bad".to_string() })
    );
}

#[test]
fn errors_say_what_went_wrong() {
    assert_eq!(
        Error::DeckField { card: 3, field: CardField::Attachments }.message(),
        "the card at index 3 of a deck lacks the string question_attachments"
    );
    assert_eq!(
        Error::BlockSpan { start: 10, end: 7 }.message(),
        "no block lies between the bytes 10 and 7 of the text"
    );
    assert_eq!(Error::DeckFrame.message(), "a deck block does not hold its two fences");
    assert_eq!(
        Error::DeckSyntax { message: "EOF".to_string() }.message(),
        "a deck is not a list of objects: EOF"
    );
    assert_eq!(
        Error::FootnoteLine { line: 0 }.message(),
        "the footnote line at index 0 does not have the form [^label]:body"
    );
    assert_eq!(
        Error::FootnoteItems.message(),
        "the list of footnotes has more items than footnotes"
    );
    assert_eq!(
        Error::Template { message: "x".to_string() }.message(),
        "the template cannot be filled: x"
    );
    assert_eq!(CardField::Question.name(), "question");
    assert_eq!(CardField::Answer.name(), "answer");
}
