use label_convert::categories::Vocabulary;
use label_convert::filter::{filter_entry, filter_labels, filter_record, keeps_label};
use label_convert::json::{Json, Member};

fn text(s: &str) -> Json {
    Json::Text(String::from(s))
}

fn member(name: &str, value: Json) -> Member {
    Member { name: String::from(name), value }
}

fn number(n: u64) -> Json {
    Json::Number(serde_json::Number::from(n))
}

fn label(category: &str, id: u64) -> Json {
    Json::Object(vec![member("category", text(category)), member("id", number(id))])
}

fn entry(name: &str, labels: Vec<Json>) -> Json {
    Json::Object(vec![
        member("attributes", Json::Object(vec![member("weather", text("clear"))])),
        member("labels", Json::Array(labels)),
        member("name", text(name)),
    ])
}

#[test]
fn filter_keeps_allowed_categories_in_order() {
    let before = entry(
        "a.jpg",
        vec![
            label("traffic light", 0),
            label("car", 1),
            label("lane", 2),
            label("person", 3),
            label("car", 4),
            label("drivable area", 5),
        ],
    );
    let after = entry("a.jpg", vec![label("car", 1), label("person", 3), label("car", 4)]);
    assert_eq!(filter_entry(&Vocabulary::standard(), before), after);
}

#[test]
fn filter_keeps_every_category_of_the_allow_list() {
    let all = vec![
        label("car", 0),
        label("person", 1),
        label("rider", 2),
        label("bus", 3),
        label("truck", 4),
        label("bike", 5),
    ];
    let same = vec![
        label("car", 0),
        label("person", 1),
        label("rider", 2),
        label("bus", 3),
        label("truck", 4),
        label("bike", 5),
    ];
    assert_eq!(filter_labels(&Vocabulary::standard(), all), same);
}

#[test]
fn filter_drops_labels_without_a_category() {
    let labels = vec![
        Json::Object(vec![member("id", number(0))]),
        Json::Object(vec![member("category", number(7))]),
        Json::Object(vec![member("category", Json::Null)]),
        Json::Null,
        text("car"),
        label("bus", 1),
    ];
    assert_eq!(filter_labels(&Vocabulary::standard(), labels), vec![label("bus", 1)]);
}

#[test]
fn filter_may_leave_no_label() {
    let before = entry("a.jpg", vec![label("traffic light", 0), label("traffic sign", 1)]);
    assert_eq!(filter_entry(&Vocabulary::standard(), before), entry("a.jpg", vec![]));
    assert_eq!(filter_labels(&Vocabulary::standard(), vec![]), vec![]);
}

#[test]
fn filter_leaves_the_other_members_alone() {
    let before = Json::Object(vec![
        member("attributes", Json::Array(vec![label("traffic light", 0)])),
        member("labels", Json::Array(vec![label("traffic light", 1), label("car", 2)])),
        member("name", text("a.jpg")),
        member("timestamp", number(10000)),
    ]);
    let after = Json::Object(vec![
        member("attributes", Json::Array(vec![label("traffic light", 0)])),
        member("labels", Json::Array(vec![label("car", 2)])),
        member("name", text("a.jpg")),
        member("timestamp", number(10000)),
    ]);
    assert_eq!(filter_entry(&Vocabulary::standard(), before), after);
}

#[test]
fn filter_leaves_a_record_without_label_array_as_it_is() {
    let no_labels = Json::Object(vec![member("name", text("a.jpg"))]);
    assert_eq!(filter_entry(&Vocabulary::standard(), no_labels), Json::Object(vec![member("name", text("a.jpg"))]));
    let odd = Json::Object(vec![member("labels", text("car")), member("name", text("a.jpg"))]);
    assert_eq!(
        filter_entry(&Vocabulary::standard(), odd),
        Json::Object(vec![member("labels", text("car")), member("name", text("a.jpg"))])
    );
    assert_eq!(filter_entry(&Vocabulary::standard(), Json::Null), Json::Null);
    assert_eq!(
        filter_entry(&Vocabulary::standard(), Json::Array(vec![label("traffic light", 0)])),
        Json::Array(vec![label("traffic light", 0)])
    );
}

#[test]
fn filtering_twice_is_filtering_once() {
    let labels = || {
        vec![
            label("traffic light", 0),
            label("car", 1),
            Json::Null,
            label("bike", 2),
            label("train", 3),
        ]
    };
    let once = filter_entry(&Vocabulary::standard(), entry("a.jpg", labels()));
    let twice = filter_entry(&Vocabulary::standard(), filter_entry(&Vocabulary::standard(), entry("a.jpg", labels())));
    assert_eq!(once, twice);
    assert_eq!(once, entry("a.jpg", vec![label("car", 1), label("bike", 2)]));
}

#[test]
fn keeps_label_tests_the_category() {
    assert!(keeps_label(&Vocabulary::standard(), &label("car", 0)));
    assert!(keeps_label(&Vocabulary::standard(), &label("bike", 0)));
    assert!(!keeps_label(&Vocabulary::standard(), &label("traffic light", 0)));
    assert!(!keeps_label(&Vocabulary::standard(), &label("Car", 0)));
    assert!(!keeps_label(&Vocabulary::standard(), &Json::Object(vec![])));
    assert!(!keeps_label(&Vocabulary::standard(), &Json::Null));
}

#[test]
fn filter_record_rewrites_the_text_pretty_printed() {
    let record = "{\"name\":\"a.jpg\",\"labels\":[{\"category\":\"car\",\"box2d\":{\"x1\":1.5,\"y1\":2,\"x2\":3,\"y2\":4}},{\"category\":\"traffic light\"}]}";
    let expected = "{\n  \"labels\": [\n    {\n      \"box2d\": {\n        \"x1\": 1.5,\n        \"x2\": 3,\n        \"y1\": 2,\n        \"y2\": 4\n      },\n      \"category\": \"car\"\n    }\n  ],\n  \"name\": \"a.jpg\"\n}";
    assert_eq!(filter_record(&Vocabulary::standard(), record), Some(String::from(expected)));
}

#[test]
fn filter_record_is_idempotent_on_text() {
    let record = "{\"name\":\"a.jpg\",\"labels\":[{\"category\":\"person\"},{\"category\":\"lane\"},{\"category\":\"bus\"}]}";
    let once = filter_record(&Vocabulary::standard(), record).unwrap();
    let twice = filter_record(&Vocabulary::standard(), &once).unwrap();
    assert_eq!(once, twice);
}

#[test]
fn filter_record_leaves_text_that_is_not_json() {
    assert_eq!(filter_record(&Vocabulary::standard(), ""), None);
    assert_eq!(filter_record(&Vocabulary::standard(), "{\"name\": "), None);
    assert_eq!(filter_record(&Vocabulary::standard(), "name: a.jpg"), None);
}

#[test]
fn filter_follows_the_vocabulary_it_is_given() {
    let lights = Vocabulary { names: vec![String::from("traffic light"), String::from("lane")] };
    let before = entry(
        "a.jpg",
        vec![label("traffic light", 0), label("car", 1), label("lane", 2), label("person", 3)],
    );
    let after = entry("a.jpg", vec![label("traffic light", 0), label("lane", 2)]);
    assert_eq!(filter_entry(&lights, before), after);
    let none = Vocabulary { names: vec![] };
    let before = entry("a.jpg", vec![label("traffic light", 0), label("car", 1)]);
    assert_eq!(filter_entry(&none, before), entry("a.jpg", vec![]));
}
