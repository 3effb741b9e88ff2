use tagcm::cmd::add::{add, AddError};
use tagcm::cmd::delete::delete;
use tagcm::repo::hashmap_repository::HashMapRepository;
use tagcm::repo::tag_data_repository::TagDataRepository;
use tagcm::repo::unittest_repository::UnitTestRepository;

#[test]
fn test_add() {
    let mut repo = UnitTestRepository::new();
    add("test".to_string(), "echo add test".to_string(), &mut repo).unwrap();
    assert_eq!(repo.get_tag_data("test").unwrap(), "echo add test");
}

#[test]
fn test_add_reserved_tag_is_refused() {
    let mut repo = UnitTestRepository::new();
    let e = add("all".to_string(), "echo all".to_string(), &mut repo).unwrap_err();
    assert_eq!(e, AddError::ReservedTag);
    assert_eq!(repo.get_tag_data("all"), None);
}

#[test]
fn test_delete() {
    let mut repo = UnitTestRepository::new();
    repo.add_tag_data("test".to_string(), "echo test".to_string());
    delete(&mut repo, "test".to_string());
    assert_eq!(repo.get_tag_data("test"), None);
}

#[test]
fn test_get_all_tags_and_data() {
    let mut repo = UnitTestRepository::new();
    repo.add_tag_data("test".to_string(), "echo test".to_string());
    repo.add_tag_data("hoge".to_string(), "echo hoge".to_string());
    let mut tags = repo.get_all_tags();
    tags.sort();
    assert_eq!(tags, ["hoge", "test"]);
    let mut commands = repo.get_all_tag_data();
    commands.sort();
    assert_eq!(commands, ["echo hoge", "echo test"]);
    let mut pairs = repo.get_all_data();
    pairs.sort();
    assert_eq!(pairs[0], ("hoge".to_string(), "echo hoge".to_string()));
    assert_eq!(pairs[1], ("test".to_string(), "echo test".to_string()));
}

#[test]
fn test_init_loads_json() {
    let mut repo = HashMapRepository::new();
    repo.init("/tmp/tags.json", "{\"test\": \"echo test\"}").unwrap();
    assert_eq!(repo.get_tag_data("test").unwrap(), "echo test");
    assert_eq!(repo.get_data_path(), "/tmp/tags.json");
}

#[test]
fn test_init_rejects_bad_json() {
    let mut repo = HashMapRepository::new();
    assert!(repo.init("p", "not json at all").is_err());
    assert!(repo.init("p", "[1, 2, 3]").is_err());
}

#[test]
fn test_to_json_prints_sorted_object() {
    let mut repo = HashMapRepository::new();
    repo.add_tag_data("b".to_string(), "2".to_string());
    repo.add_tag_data("a".to_string(), "1".to_string());
    let text = repo.to_json();
    assert_eq!(text, "{\n  \"a\": \"1\",\n  \"b\": \"2\"\n}");
}

#[test]
fn test_json_round_trip() {
    let mut repo = HashMapRepository::new();
    repo.add_tag_data("test".to_string(), "echo test".to_string());
    repo.add_tag_data("hoge".to_string(), "echo hoge".to_string());
    let text = repo.to_json();
    let mut loaded = HashMapRepository::new();
    loaded.init("p", &text).unwrap();
    assert_eq!(loaded.get_tag_data("test").unwrap(), "echo test");
    assert_eq!(loaded.get_tag_data("hoge").unwrap(), "echo hoge");
    assert_eq!(loaded.get_all_tags().len(), 2);
}

#[test]
fn test_unittest_repository_init_and_save() {
    let mut repo = UnitTestRepository::new();
    repo.init("ignored").unwrap();
    repo.add_tag_data("test".to_string(), "echo test".to_string());
    repo.save().unwrap();
    assert_eq!(repo.get_tag_data("test").unwrap(), "echo test");
}
