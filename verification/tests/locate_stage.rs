use label_convert::json::{Json, Member};
use label_convert::locate::{locate, name_of, plan_entry, plan_stage, CopyTask, EntryPlan, FoundFile};

fn text(s: &str) -> Json {
    Json::Text(String::from(s))
}

fn member(name: &str, value: Json) -> Member {
    Member { name: String::from(name), value }
}

fn entry(name: &str) -> Json {
    Json::Object(vec![member("labels", Json::Array(vec![])), member("name", text(name))])
}

fn file(path: &str) -> FoundFile {
    let name = path.rsplit('/').next().unwrap();
    FoundFile { name: String::from(name), path: String::from(path), is_file: true }
}

fn dir(path: &str) -> FoundFile {
    let name = path.rsplit('/').next().unwrap();
    FoundFile { name: String::from(name), path: String::from(path), is_file: false }
}

fn tree() -> Vec<FoundFile> {
    vec![
        dir("root"),
        dir("root/train"),
        file("root/train/a.jpg"),
        file("root/train/b.jpg"),
        dir("root/train/c.jpg"),
        dir("root/val"),
        file("root/val/a.jpg"),
        file("root/val/deep/c.jpg"),
    ]
}

#[test]
fn locate_finds_a_file_by_its_base_name() {
    assert_eq!(locate(&tree(), "b.jpg"), Some(3));
}

#[test]
fn locate_takes_the_first_of_two_files_of_one_name() {
    assert_eq!(locate(&tree(), "a.jpg"), Some(2));
}

#[test]
fn locate_passes_over_directories() {
    assert_eq!(locate(&tree(), "c.jpg"), Some(7));
    assert_eq!(locate(&tree(), "train"), None);
    assert_eq!(locate(&tree(), "root"), None);
}

#[test]
fn locate_reports_a_missing_file() {
    assert_eq!(locate(&tree(), "z.jpg"), None);
    assert_eq!(locate(&tree(), "A.jpg"), None);
    assert_eq!(locate(&tree(), "a"), None);
    assert_eq!(locate(&tree(), "root/train/a.jpg"), None);
    assert_eq!(locate(&tree(), ""), None);
    assert_eq!(locate(&vec![], "a.jpg"), None);
}

#[test]
fn name_of_reads_the_name_member() {
    assert_eq!(name_of(&entry("a.jpg")), Some("a.jpg"));
    assert_eq!(name_of(&Json::Object(vec![])), None);
    assert_eq!(name_of(&Json::Object(vec![member("name", Json::Null)])), None);
    assert_eq!(name_of(&Json::Null), None);
    assert_eq!(name_of(&text("a.jpg")), None);
}

#[test]
fn plan_for_a_located_entry_copies_and_records() {
    let plan = plan_entry(&entry("b.jpg"), &tree());
    let expected = EntryPlan::Copy(CopyTask {
        source: 3,
        image_name: String::from("b.jpg"),
        record_name: String::from("b.json"),
        record_text: String::from("{\"labels\":[],\"name\":\"b.jpg\"}"),
    });
    assert_eq!(plan, Some(expected));
}

#[test]
fn record_text_holds_the_whole_entry() {
    let full = Json::Object(vec![
        member("attributes", Json::Object(vec![member("weather", text("rainy"))])),
        member(
            "labels",
            Json::Array(vec![Json::Object(vec![
                member(
                    "box2d",
                    Json::Object(vec![
                        member("x1", Json::Number(serde_json::Number::from_f64(1125.902264).unwrap())),
                        member("x2", Json::Number(serde_json::Number::from(1157u64))),
                    ]),
                ),
                member("category", text("traffic light")),
            ])]),
        ),
        member("name", text("a.jpg")),
    ]);
    match plan_entry(&full, &tree()) {
        Some(EntryPlan::Copy(task)) => assert_eq!(
            task.record_text,
            "{\"attributes\":{\"weather\":\"rainy\"},\"labels\":[{\"box2d\":{\"x1\":1125.902264,\"x2\":1157},\"category\":\"traffic light\"}],\"name\":\"a.jpg\"}"
        ),
        other => panic!("unexpected plan: {:?}", other),
    }
}

#[test]
fn plan_for_an_unlocated_entry_reports_it_missing() {
    assert_eq!(
        plan_entry(&entry("z.jpg"), &tree()),
        Some(EntryPlan::Missing(String::from("z.jpg")))
    );
}

#[test]
fn plan_for_an_entry_without_name_is_none() {
    assert_eq!(plan_entry(&Json::Object(vec![]), &tree()), None);
    assert_eq!(plan_entry(&Json::Null, &tree()), None);
}

#[test]
fn stage_sorts_entries_into_copies_and_missing() {
    let entries = vec![entry("z.jpg"), entry("a.jpg"), entry("y.png"), entry("c.jpg")];
    let plan = plan_stage(&entries, &tree()).unwrap();
    assert_eq!(plan.missing, vec![String::from("z.jpg"), String::from("y.png")]);
    assert_eq!(plan.copies.len(), 2);
    assert_eq!(plan.copies[0].source, 2);
    assert_eq!(plan.copies[0].image_name, "a.jpg");
    assert_eq!(plan.copies[0].record_name, "a.json");
    assert_eq!(plan.copies[1].source, 7);
    assert_eq!(plan.copies[1].image_name, "c.jpg");
    assert_eq!(plan.copies[1].record_name, "c.json");
}

#[test]
fn stage_of_an_empty_manifest_is_empty() {
    let plan = plan_stage(&vec![], &tree()).unwrap();
    assert!(plan.copies.is_empty());
    assert!(plan.missing.is_empty());
}

#[test]
fn stage_fails_on_the_first_entry_without_name() {
    let entries = vec![entry("a.jpg"), Json::Object(vec![]), entry("b.jpg"), Json::Null];
    assert_eq!(plan_stage(&entries, &tree()), Err(1));
}

#[test]
fn every_unlocated_entry_is_reported_exactly_once() {
    let entries = vec![entry("z.jpg"), entry("a.jpg"), entry("y.jpg"), entry("b.jpg")];
    let plan = plan_stage(&entries, &tree()).unwrap();
    for name in ["z.jpg", "y.jpg"] {
        assert_eq!(plan.missing.iter().filter(|m| m.as_str() == name).count(), 1);
        assert!(plan.copies.iter().all(|task| task.image_name != name));
    }
    for name in ["a.jpg", "b.jpg"] {
        assert_eq!(plan.missing.iter().filter(|m| m.as_str() == name).count(), 0);
        assert_eq!(plan.copies.iter().filter(|task| task.image_name == name).count(), 1);
    }
    assert_eq!(plan.copies.len() + plan.missing.len(), entries.len());
}

#[test]
fn missing_log_is_the_same_set_in_any_order() {
    let forward = vec![entry("z.jpg"), entry("a.jpg"), entry("y.jpg"), entry("x.jpg")];
    let backward = vec![entry("x.jpg"), entry("y.jpg"), entry("a.jpg"), entry("z.jpg")];
    let mut one = plan_stage(&forward, &tree()).unwrap().missing;
    let mut other = plan_stage(&backward, &tree()).unwrap().missing;
    assert_eq!(one, vec!["z.jpg", "y.jpg", "x.jpg"]);
    assert_eq!(other, vec!["x.jpg", "y.jpg", "z.jpg"]);
    one.sort();
    other.sort();
    assert_eq!(one, other);
}

#[test]
fn missing_log_of_two_shares_is_the_log_of_the_whole() {
    let whole = vec![entry("z.jpg"), entry("a.jpg"), entry("y.jpg"), entry("x.jpg")];
    let first = vec![entry("z.jpg"), entry("a.jpg")];
    let second = vec![entry("y.jpg"), entry("x.jpg")];
    let mut joined = plan_stage(&first, &tree()).unwrap().missing;
    joined.extend(plan_stage(&second, &tree()).unwrap().missing);
    assert_eq!(joined, plan_stage(&whole, &tree()).unwrap().missing);
    assert_eq!(joined, vec!["z.jpg", "y.jpg", "x.jpg"]);
}
