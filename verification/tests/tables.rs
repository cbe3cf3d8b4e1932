use content_vtable::hooks::{Arg, Args, Diagnostic, NativeElement};
use content_vtable::raw::{Element, RawContent};
use content_vtable::styles::{Style, StyleChain};
use content_vtable::value::Value;
use content_vtable::vtable::{
    Binding, Capability, ContentVtable, FieldVtable, LocalName, ReprPart, Roles,
};

const HEADING: Element = Element(7);

fn roles(required: bool, settable: bool, synthesized: bool) -> Roles {
    Roles { positional: required, variadic: false, required, settable, synthesized }
}

/// A heading: `level` (settable, default 1), `body` (required), `tags`
/// (settable, folds) and `numbering` (synthesized).
struct Heading;

impl NativeElement for Heading {
    fn construct(&self, args: &mut Args) -> Result<RawContent, Diagnostic> {
        if args.items.is_empty() {
            return Err(Diagnostic::Rejected(String::from("missing argument: body")));
        }
        let body = args.items.remove(0).value;
        Ok(RawContent::new(HEADING, vec![None, Some(body), None, None]))
    }

    fn set(&self, args: &mut Args) -> Result<Vec<Style>, Diagnostic> {
        let mut styles = Vec::new();
        while !args.items.is_empty() {
            let arg = args.items.remove(0);
            match arg.name.as_deref() {
                Some("level") => styles.push(Style { elem: HEADING, id: 0, value: arg.value }),
                Some("tags") => styles.push(Style { elem: HEADING, id: 2, value: arg.value }),
                _ => return Err(Diagnostic::Rejected(String::from("unexpected argument"))),
            }
        }
        Ok(styles)
    }
}

/// A kind whose hooks hand back what belongs to other kinds.
struct Rogue;

impl NativeElement for Rogue {
    fn construct(&self, args: &mut Args) -> Result<RawContent, Diagnostic> {
        match args.items.len() {
            0 => Ok(RawContent::new(Element(8), vec![None, Some(Value::Int(0)), None, None])),
            1 => Ok(RawContent::new(HEADING, vec![None, Some(Value::Int(0))])),
            _ => Ok(RawContent::new(HEADING, vec![None, None, None, None])),
        }
    }

    fn set(&self, args: &mut Args) -> Result<Vec<Style>, Diagnostic> {
        let id = match args.items.len() {
            0 => 1,
            1 => 3,
            _ => 9,
        };
        Ok(vec![
            Style { elem: HEADING, id: 0, value: Value::Int(1) },
            Style { elem: HEADING, id, value: Value::Int(2) },
        ])
    }
}

fn heading_fields<T>() -> Vec<FieldVtable<T>> {
    vec![
        FieldVtable::new(
            "level",
            "The nesting depth.",
            roles(false, true, false),
            false,
            "int",
            Some(Value::Int(1)),
        ),
        FieldVtable::new("body", "The title.", roles(true, false, false), false, "str", None),
        FieldVtable::new("tags", "Labels.", roles(false, true, false), true, "array", None),
        FieldVtable::new("numbering", "", roles(false, false, true), false, "str", None),
    ]
}

fn capabilities() -> Vec<Capability> {
    vec![
        Capability { id: 10, target: 0 },
        Capability { id: 20, target: 1 },
        Capability { id: 10, target: 5 },
    ]
}

fn heading() -> ContentVtable {
    ContentVtable::new(
        Heading,
        HEADING,
        "heading",
        "Heading",
        "A section heading.",
        heading_fields(),
        capabilities(),
    )
    .erase()
}

fn args(items: Vec<(Option<&str>, Value)>) -> Args {
    Args {
        items: items
            .into_iter()
            .map(|(name, value)| Arg { name: name.map(String::from), value })
            .collect(),
    }
}

#[test]
fn new_table_has_its_metadata_and_no_extras() {
    let table = heading();
    assert_eq!(table.elem(), HEADING);
    assert_eq!(table.name(), "heading");
    assert_eq!(table.title(), "Heading");
    assert_eq!(table.docs(), "A section heading.");
    assert!(table.keywords().is_empty());
    assert!(table.scope().is_empty());
    assert!(!table.has_partial_eq());
    assert!(table.repr_parts().is_none());
    assert_eq!(table.local_name("en", None), None);
    assert_eq!(table.fields().len(), 4);
}

#[test]
fn new_binds_and_numbers_the_fields() {
    let table = heading();
    for (index, field) in table.fields().iter().enumerate() {
        assert_eq!(field.elem(), HEADING);
        assert_eq!(usize::from(field.id()), index);
    }
    let unbound: FieldVtable = FieldVtable::new("x", "", roles(false, false, false), false, "", None);
    assert_eq!(unbound.elem(), Element(0));
    assert_eq!(unbound.id(), 0);
}

#[test]
fn field_table_keeps_what_it_was_made_of() {
    let table = heading();
    let level = table.field(0).unwrap();
    assert_eq!(level.name(), "level");
    assert_eq!(level.docs(), "The nesting depth.");
    assert_eq!(level.input(), "int");
    assert_eq!(level.default(), Some(Value::Int(1)));
    assert!(!level.folds());
    assert_eq!(
        level.roles(),
        Roles {
            positional: false,
            variadic: false,
            required: false,
            settable: true,
            synthesized: false
        }
    );
    let tags = table.field(2).unwrap();
    assert!(tags.folds());
    assert_eq!(tags.default(), None);
    let numbering = table.field(3).unwrap();
    assert!(numbering.roles().synthesized);
}

#[test]
fn field_by_id_is_absent_past_the_last_field() {
    let table = heading();
    assert_eq!(table.field(1).unwrap().name(), "body");
    assert_eq!(table.field(3).unwrap().name(), "numbering");
    assert!(table.field(4).is_none());
    assert!(table.field(255).is_none());
}

#[test]
fn table_without_fields_has_no_field() {
    let table =
        ContentVtable::new(Heading, Element(1), "space", "Space", "", Vec::new(), Vec::new())
            .erase();
    assert!(table.field(0).is_none());
    assert_eq!(table.field_id("body"), None);
    assert!(table.matches(&RawContent::new(Element(1), Vec::new())));
}

#[test]
fn table_of_256_fields_numbers_them_all() {
    let mut fields = Vec::new();
    for _ in 0..256 {
        fields.push(FieldVtable::new("f", "", roles(false, false, false), false, "", None));
    }
    let table = ContentVtable::new(Heading, Element(1), "wide", "Wide", "", fields, Vec::new());
    assert_eq!(table.field(255).unwrap().id(), 255);
    assert_eq!(table.field_id("f"), Some(0));
}

#[test]
fn field_id_finds_the_first_field_of_that_name() {
    let table = heading();
    assert_eq!(table.field_id("level"), Some(0));
    assert_eq!(table.field_id("body"), Some(1));
    assert_eq!(table.field_id("numbering"), Some(3));
    assert_eq!(table.field_id("Body"), None);
    assert_eq!(table.field_id(""), None);
    let twice = ContentVtable::new(
        Heading,
        Element(1),
        "twice",
        "Twice",
        "",
        vec![
            FieldVtable::new("a", "", roles(false, false, false), false, "", None),
            FieldVtable::new("b", "", roles(false, false, false), false, "", None),
            FieldVtable::new("b", "", roles(false, false, false), false, "", None),
        ],
        Vec::new(),
    );
    assert_eq!(twice.field_id("b"), Some(1));
}

#[test]
fn modifiers_change_one_thing_each() {
    let table = ContentVtable::new(
        Heading,
        HEADING,
        "heading",
        "Heading",
        "docs",
        heading_fields(),
        capabilities(),
    )
    .with_keywords(vec!["title", "section"]);
    assert_eq!(table.keywords(), &vec!["title", "section"]);
    assert!(!table.has_partial_eq());
    assert!(table.repr_parts().is_none());

    let table = table.with_partial_eq();
    assert!(table.has_partial_eq());
    assert_eq!(table.keywords().len(), 2);

    let table = table.with_repr(vec![ReprPart::Text("["), ReprPart::Field(1), ReprPart::Text("]")]);
    assert_eq!(table.repr_parts().as_ref().unwrap().len(), 3);
    assert!(table.has_partial_eq());

    let table = table.with_scope(vec![Binding { name: "depth", value: Value::Int(6) }]);
    assert_eq!(table.scope().len(), 1);
    assert_eq!(table.scope()[0].name, "depth");
    assert_eq!(table.scope()[0].value, Value::Int(6));

    let table = table.with_local_name(vec![LocalName { lang: "de", region: None, name: "Titel" }]);
    assert_eq!(table.local_name("de", None), Some("Titel"));
    assert_eq!(table.name(), "heading");
    assert_eq!(table.docs(), "docs");
    assert_eq!(table.fields().len(), 4);
    assert_eq!(table.capability(20), Some(1));
}

#[test]
fn erase_keeps_everything() {
    let typed = ContentVtable::new(
        Heading,
        HEADING,
        "heading",
        "Heading",
        "docs",
        heading_fields(),
        capabilities(),
    )
    .with_keywords(vec!["title"])
    .with_partial_eq()
    .with_repr(vec![ReprPart::Field(1)])
    .with_local_name(vec![LocalName { lang: "fr", region: None, name: "Titre" }])
    .with_scope(vec![Binding { name: "depth", value: Value::Int(6) }]);
    let erased: ContentVtable = typed.erase();
    assert_eq!(erased.elem(), HEADING);
    assert_eq!(erased.name(), "heading");
    assert_eq!(erased.title(), "Heading");
    assert_eq!(erased.docs(), "docs");
    assert_eq!(erased.keywords(), &vec!["title"]);
    assert!(erased.has_partial_eq());
    assert_eq!(erased.repr_parts().as_ref().unwrap().len(), 1);
    assert_eq!(erased.local_name("fr", None), Some("Titre"));
    assert_eq!(erased.scope().len(), 1);
    assert_eq!(erased.capability(10), Some(0));
    assert_eq!(erased.fields().len(), 4);
    let level = erased.field(0).unwrap();
    assert_eq!(level.name(), "level");
    assert_eq!(level.default(), Some(Value::Int(1)));
    assert_eq!(level.elem(), HEADING);
    let tags = erased.field(2).unwrap();
    assert_eq!(tags.id(), 2);
    assert!(tags.folds());
    let mut call = args(vec![(None, Value::Str(String::from("Intro")))]);
    assert!(erased.construct(&mut call).is_ok());
}

#[test]
fn capability_is_the_first_entry_for_the_id() {
    let table = heading();
    assert_eq!(table.capability(10), Some(0));
    assert_eq!(table.capability(20), Some(1));
}

#[test]
fn capability_that_is_not_implemented_is_absent_every_time() {
    let table = heading();
    for _ in 0..100 {
        assert_eq!(table.capability(30), None);
        assert_eq!(table.capability(0), None);
        assert_eq!(table.capability(u64::MAX), None);
    }
    let bare =
        ContentVtable::new(Heading, HEADING, "h", "H", "", heading_fields(), Vec::new()).erase();
    assert_eq!(bare.capability(10), None);
}

#[test]
fn local_name_prefers_region_then_language_then_title() {
    let table = ContentVtable::new(
        Heading,
        HEADING,
        "heading",
        "Heading",
        "",
        heading_fields(),
        Vec::new(),
    )
    .with_local_name(vec![
        LocalName { lang: "de", region: None, name: "Überschrift" },
        LocalName { lang: "de", region: Some("CH"), name: "Titel" },
        LocalName { lang: "pt", region: Some("BR"), name: "Cabeçalho" },
        LocalName { lang: "de", region: Some("CH"), name: "Zweiter" },
    ])
    .erase();
    assert_eq!(table.local_name("de", Some("CH")), Some("Titel"));
    assert_eq!(table.local_name("de", Some("AT")), Some("Überschrift"));
    assert_eq!(table.local_name("de", None), Some("Überschrift"));
    assert_eq!(table.local_name("pt", Some("BR")), Some("Cabeçalho"));
    assert_eq!(table.local_name("pt", Some("PT")), Some("Heading"));
    assert_eq!(table.local_name("pt", None), Some("Heading"));
    assert_eq!(table.local_name("fr", None), Some("Heading"));
}

#[test]
fn local_name_is_absent_without_localized_names() {
    let table = heading();
    assert_eq!(table.local_name("de", None), None);
    assert_eq!(table.local_name("de", Some("CH")), None);
}

#[test]
fn table_matches_records_of_its_kind_only() {
    let table = heading();
    let body = || Some(Value::Str(String::from("Intro")));
    assert!(table.matches(&RawContent::new(HEADING, vec![None, body(), None, None])));
    assert!(table.matches(&RawContent::new(
        HEADING,
        vec![Some(Value::Int(2)), body(), Some(Value::Array(vec![])), body()]
    )));
    assert!(!table.matches(&RawContent::new(Element(8), vec![None, body(), None, None])));
    assert!(!table.matches(&RawContent::new(HEADING, vec![None, body(), None])));
    assert!(!table.matches(&RawContent::new(HEADING, vec![None, body(), None, None, None])));
    assert!(!table.matches(&RawContent::new(HEADING, vec![None, None, None, None])));
}

#[test]
fn field_table_matches_records_that_can_carry_it() {
    let table = heading();
    let body = table.field(1).unwrap();
    let numbering = table.field(3).unwrap();
    let full = RawContent::new(HEADING, vec![None, Some(Value::Int(1)), None, None]);
    let short = RawContent::new(HEADING, vec![None, Some(Value::Int(1))]);
    let bodiless = RawContent::new(HEADING, vec![None, None, None, None]);
    let other = RawContent::new(Element(8), vec![None, Some(Value::Int(1)), None, None]);
    assert!(body.matches(&full));
    assert!(body.matches(&short));
    assert!(!body.matches(&bodiless));
    assert!(!body.matches(&other));
    assert!(numbering.matches(&full));
    assert!(!numbering.matches(&short));
    assert!(numbering.matches(&bodiless));
}

#[test]
fn styles_match_settable_fields_of_the_kind_only() {
    let table = heading();
    let style = |elem: Element, id: u8| Style { elem, id, value: Value::Int(1) };
    assert!(table.matches_styles(&Vec::new()));
    assert!(table.matches_styles(&vec![style(HEADING, 0), style(HEADING, 2)]));
    assert!(!table.matches_styles(&vec![style(HEADING, 0), style(HEADING, 1)]));
    assert!(!table.matches_styles(&vec![style(HEADING, 3)]));
    assert!(!table.matches_styles(&vec![style(HEADING, 4)]));
    assert!(!table.matches_styles(&vec![style(Element(8), 0)]));
}

#[test]
fn construct_hands_on_a_record_of_the_kind() {
    let table = heading();
    let mut call = args(vec![(None, Value::Str(String::from("Intro")))]);
    let record = table.construct(&mut call).unwrap();
    assert!(table.matches(&record));
    assert!(record.is(HEADING));
    assert_eq!(record.len(), 4);
    assert_eq!(record.slot(1), &Some(Value::Str(String::from("Intro"))));
    assert_eq!(record.slot(0), &None);
    assert!(call.items.is_empty());
}

#[test]
fn construct_passes_on_the_rejection_of_the_hook() {
    let table = heading();
    let mut call = args(Vec::new());
    match table.construct(&mut call) {
        Err(Diagnostic::Rejected(message)) => assert_eq!(message, "missing argument: body"),
        other => panic!("unexpected outcome: {:?}", other),
    }
}

#[test]
fn construct_refuses_a_record_of_another_kind() {
    let table =
        ContentVtable::new(Rogue, HEADING, "heading", "Heading", "", heading_fields(), Vec::new())
            .erase();
    let one = (None, Value::Int(1));
    let mut other_kind = args(Vec::new());
    assert!(matches!(table.construct(&mut other_kind), Err(Diagnostic::Foreign)));
    let mut too_short = args(vec![one.clone()]);
    assert!(matches!(table.construct(&mut too_short), Err(Diagnostic::Foreign)));
    let mut no_body = args(vec![one.clone(), one]);
    assert!(matches!(table.construct(&mut no_body), Err(Diagnostic::Foreign)));
}

#[test]
fn accept_passes_on_each_outcome() {
    let table = heading();
    let good = RawContent::new(HEADING, vec![None, Some(Value::Int(1)), None, None]);
    let accepted = table.accept(Ok(good)).unwrap();
    assert_eq!(accepted.slot(1), &Some(Value::Int(1)));
    let foreign = RawContent::new(Element(8), vec![None, Some(Value::Int(1)), None, None]);
    assert!(matches!(table.accept(Ok(foreign)), Err(Diagnostic::Foreign)));
    match table.accept(Err(Diagnostic::Rejected(String::from("no")))) {
        Err(Diagnostic::Rejected(message)) => assert_eq!(message, "no"),
        other => panic!("unexpected outcome: {:?}", other),
    }
    assert!(matches!(table.accept(Err(Diagnostic::Foreign)), Err(Diagnostic::Foreign)));
}

#[test]
fn set_hands_on_styles_for_settable_fields() {
    let table = heading();
    let mut call = args(vec![
        (Some("level"), Value::Int(2)),
        (Some("tags"), Value::Array(vec![1])),
    ]);
    let styles = table.set(&mut call).unwrap();
    assert_eq!(styles.len(), 2);
    assert_eq!(styles[0].id, 0);
    assert_eq!(styles[0].value, Value::Int(2));
    assert_eq!(styles[1].id, 2);
    assert_eq!(styles[1].elem, HEADING);
    let chain = StyleChain::new().chain(styles[0].clone());
    assert_eq!(table.field(0).unwrap().get_from_styles(&chain), Some(Value::Int(2)));
}

#[test]
fn set_passes_on_the_rejection_of_the_hook() {
    let table = heading();
    let mut call = args(vec![(Some("body"), Value::Int(2))]);
    match table.set(&mut call) {
        Err(Diagnostic::Rejected(message)) => assert_eq!(message, "unexpected argument"),
        other => panic!("unexpected outcome: {:?}", other.map(|styles| styles.len())),
    }
}

#[test]
fn set_refuses_styles_for_other_fields() {
    let table =
        ContentVtable::new(Rogue, HEADING, "heading", "Heading", "", heading_fields(), Vec::new())
            .erase();
    let one = (None, Value::Int(1));
    let mut required = args(Vec::new());
    assert!(matches!(table.set(&mut required), Err(Diagnostic::Foreign)));
    let mut synthesized = args(vec![one.clone()]);
    assert!(matches!(table.set(&mut synthesized), Err(Diagnostic::Foreign)));
    let mut missing = args(vec![one.clone(), one]);
    assert!(matches!(table.set(&mut missing), Err(Diagnostic::Foreign)));
}

#[test]
fn accept_styles_passes_on_each_outcome() {
    let table = heading();
    let good = vec![Style { elem: HEADING, id: 2, value: Value::Array(vec![1]) }];
    assert_eq!(table.accept_styles(Ok(good)).unwrap().len(), 1);
    let bad = vec![Style { elem: Element(9), id: 2, value: Value::Array(vec![1]) }];
    assert!(matches!(table.accept_styles(Ok(bad)), Err(Diagnostic::Foreign)));
    match table.accept_styles(Err(Diagnostic::Rejected(String::from("no")))) {
        Err(Diagnostic::Rejected(message)) => assert_eq!(message, "no"),
        _ => panic!("unexpected outcome"),
    }
}

#[test]
fn get_from_styles_is_nothing_for_a_field_that_is_not_settable() {
    let table = heading();
    let chain = StyleChain::new()
        .chain(Style { elem: HEADING, id: 1, value: Value::Int(5) })
        .chain(Style { elem: HEADING, id: 3, value: Value::Int(6) });
    assert_eq!(table.field(1).unwrap().get_from_styles(&chain), None);
    assert_eq!(table.field(3).unwrap().get_from_styles(&chain), None);
    assert_eq!(table.field(0).unwrap().get_from_styles(&chain), Some(Value::Int(1)));
    assert_eq!(table.field(2).unwrap().get_from_styles(&chain), None);
}
