use tagcm::cmd::search::search;
use tagcm::repo::tag_data_repository::TagDataRepository;
use tagcm::repo::unittest_repository::UnitTestRepository;

#[test]
fn test_search_single_tag() {
    let mut repo = UnitTestRepository::new();
    repo.add_tag_data("test".to_string(), "echo test".to_string());
    let result = search(&repo, "test".to_string());
    assert_eq!(result.len(), 1);
    assert_eq!(result[0].tag, "test");
    assert_eq!(result[0].command, "echo test");

    repo.remove_tag_data("test");
    let result = search(&repo, "test".to_string());
    assert_eq!(result.len(), 0);
}

#[test]
fn test_search_different_prefix() {
    let mut repo = UnitTestRepository::new();
    repo.add_tag_data("test".to_string(), "echo test".to_string());
    repo.add_tag_data("hoge".to_string(), "echo hoge".to_string());
    let result = search(&repo, "test".to_string());
    assert_eq!(result.len(), 1);
    assert_eq!(result[0].tag, "test");
    assert_eq!(result[0].command, "echo test");

    repo.remove_tag_data("test");
    repo.remove_tag_data("hoge");
    let result = search(&repo, "test".to_string());
    assert_eq!(result.len(), 0);
}

#[test]
fn test_search_same_prefix() {
    let mut repo = UnitTestRepository::new();
    repo.add_tag_data("test".to_string(), "echo test".to_string());
    repo.add_tag_data("test2".to_string(), "echo test2".to_string());
    let result = search(&repo, "test".to_string());
    assert_eq!(result.len(), 2);
    assert_eq!(result[0].tag, "test");
    assert_eq!(result[0].command, "echo test");
    assert_eq!(result[1].tag, "test2");
    assert_eq!(result[1].command, "echo test2");

    repo.remove_tag_data("test");
    let mut result = search(&repo, "test".to_string());
    assert_eq!(result.len(), 1);

    repo.remove_tag_data("hoge");
    result = search(&repo, "hoge".to_string());
    assert_eq!(result.len(), 0);
}

#[test]
fn test_search_empty_query_returns_all_sorted() {
    let mut repo = UnitTestRepository::new();
    repo.add_tag_data("zeta".to_string(), "echo z".to_string());
    repo.add_tag_data("alpha".to_string(), "echo a".to_string());
    repo.add_tag_data("mid".to_string(), "echo m".to_string());
    let result = search(&repo, "".to_string());
    assert_eq!(result.len(), 3);
    assert_eq!(result[0].tag, "alpha");
    assert_eq!(result[1].tag, "mid");
    assert_eq!(result[2].tag, "zeta");
}

#[test]
fn test_search_no_match_is_empty() {
    let mut repo = UnitTestRepository::new();
    repo.add_tag_data("test".to_string(), "echo test".to_string());
    repo.add_tag_data("test2".to_string(), "echo test2".to_string());
    let result = search(&repo, "zzz".to_string());
    assert_eq!(result.len(), 0);
}

#[test]
fn test_search_replaced_command_is_current() {
    let mut repo = UnitTestRepository::new();
    repo.add_tag_data("test".to_string(), "echo old".to_string());
    repo.add_tag_data("test".to_string(), "echo new".to_string());
    let result = search(&repo, "test".to_string());
    assert_eq!(result.len(), 1);
    assert_eq!(result[0].command, "echo new");
}

#[test]
fn test_display_line() {
    let mut repo = UnitTestRepository::new();
    repo.add_tag_data("test".to_string(), "echo test".to_string());
    let result = search(&repo, "test".to_string());
    assert_eq!(result[0].display_line(), "test: echo test");
}
