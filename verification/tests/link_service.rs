use url_shortener::generate::generate_random_characters;
use url_shortener::link::{LinkRequest, UrlRequest};
use url_shortener::service::LinkService;
use url_shortener::store::LinkStore;
use url_shortener::validate::validate;

#[test]
fn test_create_link_generate_short() {
    let gr = generate_random_characters(5);
    assert_eq!(gr.len(), 5);
}

#[test]
fn test_generate_short_url() {
    let short_url = generate_random_characters(5);
    assert_eq!(short_url.len(), 5);
}

#[test]
fn test_generate_zero_length() {
    assert_eq!(generate_random_characters(0), String::new());
}

#[test]
fn test_generate_alphanumeric_only() {
    let code = generate_random_characters(64);
    assert_eq!(code.len(), 64);
    assert!(code.chars().all(|c| c.is_ascii_alphanumeric()));
}

#[test]
fn test_validate_accepts_well_formed_urls() {
    assert!(validate("https://google.com").is_ok());
    assert!(validate("http://example.com/path?q=1").is_ok());
    assert!(validate("ftp://files.example.com/pub").is_ok());
    assert!(validate("http://a").is_ok());
}

#[test]
fn test_validate_rejects_malformed_urls() {
    let e = validate("not-a-url").unwrap_err();
    assert_eq!(e.field, "url");
    assert_eq!(e.message, "Url is not valid");
    assert!(validate("").is_err());
    assert!(validate("https://").is_err());
    assert!(validate("https://.com").is_err());
    assert!(validate("http:///path").is_err());
    assert!(validate("http://?q").is_err());
    assert!(validate("http://#frag").is_err());
    assert!(validate("http://exa mple.com").is_err());
    assert!(validate("gopher://example.com").is_err());
}

#[test]
fn test_create_link_returns_created_record() {
    let mut service = LinkService::new();
    let link = service.create_link(String::from("https://google.com")).unwrap();
    assert_eq!(link.id, 1);
    assert_eq!(link.url, "https://google.com");
    assert_eq!(link.short_url.len(), 5);
    let all = service.get_all_links();
    assert_eq!(all.len(), 1);
    assert_eq!(all[0].url, "https://google.com");
    assert_eq!(all[0].short_url, link.short_url);
}

#[test]
fn test_create_link_rejects_invalid_url() {
    let mut service = LinkService::new();
    let before = service.get_all_links().len();
    let err = service.create_link(String::from("not-a-url")).unwrap_err();
    assert_eq!(err.field, "url");
    assert_eq!(err.message, "Url is not valid");
    assert_eq!(service.get_all_links().len(), before);
}

#[test]
fn test_get_link_matches_by_substring() {
    let mut store = LinkStore::new();
    let stored = store.insert(String::from("https://example.com"), String::from("abCDE"));
    let hit = store.find_by_short_code("bCD").unwrap();
    assert_eq!(hit.id, stored.id);
    assert_eq!(hit.short_url, "abCDE");
    assert!(store.find_by_short_code("zzz").is_none());
    assert!(store.find_by_short_code("abCDEF").is_none());
}

#[test]
fn test_get_link_returns_first_match() {
    let mut store = LinkStore::new();
    store.insert(String::from("https://one.example"), String::from("AAAAA"));
    store.insert(String::from("https://two.example"), String::from("AABAA"));
    let hit = store.find_by_short_code("AA").unwrap();
    assert_eq!(hit.id, 1);
    let empty_code_hit = store.find_by_short_code("").unwrap();
    assert_eq!(empty_code_hit.id, 1);
}

#[test]
fn test_delete_keeps_the_other_links() {
    let mut service = LinkService::new();
    let first = service.create_link(String::from("https://one.example")).unwrap();
    let second = service.create_link(String::from("https://two.example")).unwrap();
    let third = service.create_link(String::from("https://three.example")).unwrap();
    assert_eq!(service.delete_link(second.id).rows_affected, 1);
    let all = service.get_all_links();
    assert_eq!(all.len(), 2);
    assert_eq!(all[0].id, first.id);
    assert_eq!(all[1].id, third.id);
}

#[test]
fn test_get_link_on_empty_store() {
    let service = LinkService::new();
    assert!(service.get_link("abcde").is_none());
}

#[test]
fn test_delete_link_is_idempotent() {
    let mut service = LinkService::new();
    let link = service.create_link(String::from("https://google.com")).unwrap();
    assert_eq!(service.delete_link(link.id).rows_affected, 1);
    assert_eq!(service.delete_link(link.id).rows_affected, 0);
}

#[test]
fn test_delete_link_missing_id() {
    let mut service = LinkService::new();
    assert_eq!(service.delete_link(42).rows_affected, 0);
}

#[test]
fn test_end_to_end_create_list_delete_resolve() {
    let mut service = LinkService::new();
    let before = service.get_all_links().len();
    let link = service.create_link(String::from("https://google.com")).unwrap();
    assert_eq!(link.short_url.len(), 5);
    assert_eq!(service.get_all_links().len(), before + 1);
    assert_eq!(service.delete_link(link.id).rows_affected, 1);
    assert!(service.get_link(&link.short_url).is_none());
}

#[test]
fn test_request_records_carry_the_submission() {
    let submitted = UrlRequest { url: String::from("https://google.com") };
    assert!(validate(&submitted.url).is_ok());
    let request = LinkRequest {
        url: submitted.url,
        short_url: generate_random_characters(5),
    };
    let mut store = LinkStore::new();
    let link = store.insert(request.url, request.short_url);
    assert_eq!(link.id, 1);
    assert_eq!(link.url, "https://google.com");
}

#[test]
fn test_ids_are_assigned_in_order() {
    let mut service = LinkService::new();
    let first = service.create_link(String::from("https://one.example")).unwrap();
    let second = service.create_link(String::from("https://two.example")).unwrap();
    assert_eq!(first.id, 1);
    assert_eq!(second.id, 2);
    assert_eq!(service.delete_link(first.id).rows_affected, 1);
    let third = service.create_link(String::from("https://three.example")).unwrap();
    assert_eq!(third.id, 3);
}
