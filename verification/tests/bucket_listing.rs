use cos_manager::cloud::{details_link, unsigned_bits, Cloud, Content, ListBucketResult, Owner};
use cos_manager::listing::sort_newest_first;
use cos_manager::login::Login;

fn object(key: &str, modified: &str, size: i64) -> Content {
    let mut c = Content::default();
    c.key = key.to_string();
    c.last_modified = modified.to_string();
    c.size = size;
    c.owner = Owner { id: "1".to_string(), display_name: "Ann Lee".to_string() };
    c
}

fn creds() -> Login {
    let mut l = Login::new();
    l.ibm_api_key_id = "key".to_string();
    l.ibm_service_instance_id = "inst".to_string();
    l.endpoint_url = "https://s3.example.com".to_string();
    l.bucket = "photos".to_string();
    l
}

fn listing(contents: Vec<Content>) -> ListBucketResult {
    let mut r = ListBucketResult::default();
    r.name = "photos".to_string();
    r.max_keys = 1000;
    r.contents = contents;
    r
}

#[test]
fn new_cloud_is_fresh() {
    let c = Cloud::new(creds());
    assert_eq!(c.credentials, creds());
    assert_eq!(c.token.access_token, "");
    assert_eq!(c.token.expires_in, None);
    assert!(c.objectList.contents.is_empty());
    assert_eq!(c.objectList.max_keys, 0);
    assert!(!c.objectList.is_truncated);
}

#[test]
fn details_link_joins_its_parts() {
    assert_eq!(
        details_link("k", "d", "1 B", "o", false),
        "/details?key=k&last_modified=d&size_label=1 B&owner=o&delete=false"
    );
    assert_eq!(
        details_link("", "", "", "", true),
        "/details?key=&last_modified=&size_label=&owner=&delete=true"
    );
}

#[test]
fn set_url_encodes_each_part() {
    let mut c = object("my file.txt", "2023-01-02T03:04:05.000Z", 12);
    c.size_label = "12 B".to_string();
    c.set_url();
    assert_eq!(
        c.url,
        "/details?key=my%20file.txt&last_modified=2023-01-02T03%3A04%3A05.000Z&size_label=12%20B&owner=Ann%20Lee&delete=false"
    );
    assert_eq!(
        c.deleteurl,
        "/details?key=my%20file.txt&last_modified=2023-01-02T03%3A04%3A05.000Z&size_label=12%20B&owner=Ann%20Lee&delete=true"
    );
    assert_eq!(c.key, "my file.txt");
}

#[test]
fn set_url_encodes_non_ascii_as_utf8() {
    let mut c = object("café", "d", 1);
    c.set_url();
    assert!(c.url.starts_with("/details?key=caf%C3%A9&"));
}

#[test]
fn set_urls_sets_every_object_and_settles() {
    let mut cloud = Cloud::new(creds());
    cloud.objectList = listing(vec![object("a", "1", 1), object("b c", "2", 2)]);
    cloud.set_urls();
    assert_eq!(cloud.objectList.contents[0].url, "/details?key=a&last_modified=1&size_label=&owner=Ann%20Lee&delete=false");
    assert_eq!(cloud.objectList.contents[1].deleteurl, "/details?key=b%20c&last_modified=2&size_label=&owner=Ann%20Lee&delete=true");
    let once = cloud.clone();
    cloud.set_urls();
    assert_eq!(cloud, once);
}

#[test]
fn total_size_of_empty_listing() {
    let cloud = Cloud::new(creds());
    assert_eq!(cloud.total_size_bytes(), Some(0));
    assert_eq!(cloud.get_total_size(), "0 B");
}

#[test]
fn total_size_adds_the_sizes() {
    let mut cloud = Cloud::new(creds());
    cloud.objectList = listing(vec![object("a", "1", 500), object("b", "2", 499)]);
    assert_eq!(cloud.total_size_bytes(), Some(999));
    assert_eq!(cloud.get_total_size(), "999 B");
    cloud.objectList.contents.push(object("c", "3", 501));
    assert_eq!(cloud.total_size_bytes(), Some(1500));
    assert_eq!(cloud.get_total_size(), "1.5 KB");
}

#[test]
fn total_size_of_negative_sum_reads_the_bits() {
    let mut cloud = Cloud::new(creds());
    cloud.objectList = listing(vec![object("a", "1", -1)]);
    assert_eq!(cloud.total_size_bytes(), Some(u64::MAX));
    assert_eq!(unsigned_bits(-2), u64::MAX - 1);
    assert_eq!(unsigned_bits(i64::MIN), 1u64 << 63);
    assert_eq!(unsigned_bits(7), 7);
}

#[test]
fn total_size_overflow_is_refused() {
    let mut cloud = Cloud::new(creds());
    cloud.objectList = listing(vec![object("a", "1", i64::MAX), object("b", "2", 1), object("c", "3", -5)]);
    assert_eq!(cloud.total_size_bytes(), None);
    cloud.objectList = listing(vec![object("a", "1", i64::MIN), object("b", "2", -1)]);
    assert_eq!(cloud.total_size_bytes(), None);
}

#[test]
fn request_addresses() {
    let mut cloud = Cloud::new(creds());
    assert_eq!(cloud.object_url("dir/a.txt"), "https://s3.example.com/photos/dir/a.txt");
    assert_eq!(cloud.listing_url("dir/"), "https://s3.example.com/photos?prefix=dir/");
    assert_eq!(cloud.listing_url(""), "https://s3.example.com/photos?prefix=");
    cloud.token.access_token = "abc".to_string();
    assert_eq!(cloud.authorization(), "bearer abc");
}

#[test]
fn token_form_names_the_api_key() {
    let cloud = Cloud::new(creds());
    let form = cloud.token_request_form();
    assert_eq!(
        form,
        vec![
            ("apikey".to_string(), "key".to_string()),
            ("response_type".to_string(), "cloud_iam".to_string()),
            ("grant_type".to_string(), "urn:ibm:params:oauth:grant-type:apikey".to_string()),
        ]
    );
}

fn keys(v: &[Content]) -> Vec<String> {
    v.iter().map(|c| c.key.clone()).collect()
}

#[test]
fn sort_puts_newest_first_and_keeps_ties_in_order() {
    let v = vec![
        object("a", "2021", 1),
        object("b", "2023", 1),
        object("c", "2022", 1),
        object("d", "2023", 1),
        object("e", "2021", 1),
    ];
    let sorted = sort_newest_first(v.clone());
    assert_eq!(keys(&sorted), vec!["b", "d", "c", "a", "e"]);
    let mut expected = v.clone();
    expected.sort_by(|a, b| b.last_modified.cmp(&a.last_modified));
    assert_eq!(sorted, expected);
}

#[test]
fn sorting_twice_is_sorting_once() {
    let v = vec![object("x", "b", 1), object("y", "a", 1), object("z", "c", 1), object("w", "b", 2)];
    let once = sort_newest_first(v);
    let twice = sort_newest_first(once.clone());
    assert_eq!(once, twice);
    assert!(sort_newest_first(Vec::new()).is_empty());
}

#[test]
fn accept_listing_orders_and_labels() {
    let mut cloud = Cloud::new(creds());
    cloud.accept_listing(Some(listing(vec![object("old", "2020", 10), object("new", "2024", 2000)])));
    assert_eq!(cloud.objectList.name, "photos");
    assert_eq!(cloud.objectList.max_keys, 1000);
    assert_eq!(keys(&cloud.objectList.contents), vec!["new", "old"]);
    assert_eq!(cloud.objectList.contents[0].size_label, "2.0 KB");
    assert_eq!(cloud.objectList.contents[1].size_label, "10 B");
    assert_eq!(cloud.credentials, creds());
}

#[test]
fn accept_listing_without_listing_keeps_objects() {
    let mut cloud = Cloud::new(creds());
    cloud.objectList = listing(vec![object("a", "2020", 5), object("b", "2024", 7)]);
    cloud.accept_listing(None);
    assert_eq!(keys(&cloud.objectList.contents), vec!["a", "b"]);
    assert_eq!(cloud.objectList.contents[0].size_label, "5 B");
    assert_eq!(cloud.objectList.contents[1].size_label, "7 B");
}

#[test]
fn label_sizes_of_negative_size() {
    let mut cloud = Cloud::new(creds());
    cloud.objectList = listing(vec![object("a", "1", -1)]);
    cloud.label_sizes();
    assert_eq!(cloud.objectList.contents[0].size_label, bytesize::ByteSize::b(u64::MAX).to_string());
}

#[test]
fn accepting_a_listing_keeps_its_total_size() {
    let v = vec![object("a", "2020", 5), object("b", "2024", 700), object("c", "2022", 300)];
    let mut given = Cloud::new(creds());
    given.objectList = listing(v.clone());
    let mut cloud = Cloud::new(creds());
    cloud.accept_listing(Some(listing(v)));
    assert_eq!(keys(&cloud.objectList.contents), vec!["b", "c", "a"]);
    assert_eq!(cloud.total_size_bytes(), given.total_size_bytes());
    assert_eq!(cloud.get_total_size(), "1.0 KB");
}

#[test]
fn reordering_keeps_the_total_size() {
    let mut a = Cloud::new(creds());
    a.objectList = listing(vec![object("a", "1", 5), object("b", "2", 700), object("c", "3", 300)]);
    let mut b = Cloud::new(creds());
    b.objectList = listing(vec![object("c", "3", 300), object("a", "1", 5), object("b", "2", 700)]);
    assert_eq!(a.total_size_bytes(), Some(1005));
    assert_eq!(a.total_size_bytes(), b.total_size_bytes());
    assert_eq!(a.get_total_size(), b.get_total_size());
}

fn scaled_shape(t: &str) -> bool {
    let c: Vec<char> = t.chars().collect();
    let n = c.len();
    n >= 6
        && c[..n - 5].iter().all(|d| d.is_ascii_digit())
        && c[n - 5] == '.'
        && c[n - 4].is_ascii_digit()
        && c[n - 3] == ' '
        && "KMGTPE".contains(c[n - 2])
        && c[n - 1] == 'B'
}

#[test]
fn large_size_labels_are_scaled() {
    for bytes in [1000i64, 1500, 999_999, 1_125_899_909_097_500, i64::MAX] {
        let mut cloud = Cloud::new(creds());
        cloud.objectList = listing(vec![object("a", "1", bytes)]);
        cloud.label_sizes();
        let label = cloud.objectList.contents[0].size_label.clone();
        assert!(scaled_shape(&label), "label {:?}", label);
    }
    let mut cloud = Cloud::new(creds());
    cloud.objectList = listing(vec![object("a", "1", 999)]);
    cloud.label_sizes();
    assert_eq!(cloud.objectList.contents[0].size_label, "999 B");
}

fn within_a_tenth(bytes: u64, t: &str) -> bool {
    let c: Vec<char> = t.chars().collect();
    let n = c.len();
    let whole: u128 = c[..n - 5].iter().collect::<String>().parse().unwrap();
    let tenths = whole * 10 + c[n - 4].to_digit(10).unwrap() as u128;
    let e = "KMGTPE".find(c[n - 2]).unwrap() as u32 + 1;
    let unit = 1000u128.pow(e);
    let lhs = tenths * unit;
    let rhs = 10 * bytes as u128;
    lhs.abs_diff(rhs) <= unit
}

#[test]
fn large_size_labels_are_close_to_the_size() {
    for bytes in [1000u64, 1049, 1050, 999_999, 1_000_000, 123_456_789, 1_125_899_909_097_500, u64::MAX] {
        let label = bytesize::ByteSize::b(bytes).to_string();
        assert!(within_a_tenth(bytes, &label), "{} gave {:?}", bytes, label);
    }
    let mut cloud = Cloud::new(creds());
    cloud.objectList = listing(vec![object("a", "1", 123_456_789)]);
    let total = cloud.get_total_size();
    assert!(within_a_tenth(123_456_789, &total), "{:?}", total);
    assert_ne!(total, "1.0 KB");
}
