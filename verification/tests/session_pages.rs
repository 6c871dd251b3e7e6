use cos_manager::details::ObjectDetails;
use cos_manager::login::{Login, LoginArray};
use cos_manager::session::{requested_bucket_index, Removal, SaveOutcome};

fn login(bucket: &str) -> Login {
    let mut l = Login::new();
    l.ibm_api_key_id = "key".to_string();
    l.ibm_service_instance_id = "inst".to_string();
    l.endpoint_url = "https://e".to_string();
    l.bucket = bucket.to_string();
    l
}

fn names(la: &LoginArray) -> Vec<String> {
    la.buckets.iter().map(|l| l.bucket.clone()).collect()
}

#[test]
fn object_details_start_empty() {
    let d = ObjectDetails::new(login("b"));
    assert_eq!(d.cred, login("b"));
    assert_eq!(d.key, "");
    assert_eq!(d.delete, "false");
    assert!(!d.is_delete());
}

#[test]
fn object_details_take_the_query() {
    let mut d = ObjectDetails::new(login("b"));
    let mut q = ObjectDetails::new(Login::new());
    q.key = "k".to_string();
    q.last_modified = "2024".to_string();
    q.size_label = "3 B".to_string();
    q.owner = "me".to_string();
    q.delete = "true".to_string();
    d.take_query(Some(q));
    assert_eq!(d.key, "k");
    assert_eq!(d.owner, "me");
    assert_eq!(d.cred, login("b"));
    assert!(d.is_delete());
    let before = d.clone();
    d.take_query(None);
    assert_eq!(d, before);
    d.delete = "True".to_string();
    assert!(!d.is_delete());
}

#[test]
fn index_parameter_defaults_to_zero() {
    assert_eq!(requested_bucket_index(None), 0);
    assert_eq!(requested_bucket_index(Some("2")), 2);
    assert_eq!(requested_bucket_index(Some("-3")), -3);
    assert_eq!(requested_bucket_index(Some("two")), 0);
}

#[test]
fn dashboard_bucket_checks_the_index() {
    let la = LoginArray { buckets: vec![login("a"), login("b")] };
    assert_eq!(la.dashboard_bucket(0), Some(0));
    assert_eq!(la.dashboard_bucket(1), Some(1));
    assert_eq!(la.dashboard_bucket(2), Some(2));
    assert_eq!(la.dashboard_bucket(3), None);
    assert_eq!(la.dashboard_bucket(-1), None);
}

#[test]
fn saving_a_complete_form_adds_a_bucket() {
    let mut la = LoginArray { buckets: vec![login("a")] };
    let mut params = login("b");
    params.logging_in = true;
    let out = la.save(&params);
    assert!(matches!(out, SaveOutcome::Saved));
    assert_eq!(names(&la), vec!["a", "b"]);
    assert!(la.buckets[1].logging_in);
    assert_eq!(la.buckets[1], params);
}

#[test]
fn saving_an_incomplete_form_is_refused() {
    let mut la = LoginArray { buckets: vec![login("a")] };
    let mut params = login("b");
    params.ibm_api_key_id = String::new();
    match la.save(&params) {
        SaveOutcome::Refused(check) => {
            assert!(check.has_error());
            assert_eq!(check.ibm_api_key_id.error_message, "ibm_api_key_id required");
        }
        _ => panic!("expected a refusal"),
    }
    assert_eq!(names(&la), vec!["a"]);
}

#[test]
fn logging_out_changes_no_bucket() {
    let mut la = LoginArray { buckets: vec![login("a")] };
    let mut params = Login::new();
    params.logging_in = false;
    match la.save(&params) {
        SaveOutcome::LoggedOut(check) => assert!(!check.has_error()),
        _ => panic!("expected a logout"),
    }
    assert_eq!(names(&la), vec!["a"]);
}

#[test]
fn removing_buckets() {
    let mut la = LoginArray { buckets: vec![login("a"), login("b"), login("c")] };
    assert_eq!(la.remove_bucket(None), Removal::Missing);
    assert_eq!(la.remove_bucket(Some("x")), Removal::Unreadable);
    assert_eq!(la.remove_bucket(Some("3")), Removal::OutOfRange);
    assert_eq!(la.remove_bucket(Some("-1")), Removal::OutOfRange);
    assert_eq!(names(&la), vec!["a", "b", "c"]);
    assert_eq!(la.remove_bucket(Some("1")), Removal::Removed);
    assert_eq!(names(&la), vec!["a", "c"]);
}

#[test]
fn save_then_remove_last_restores() {
    let mut la = LoginArray { buckets: vec![login("a"), login("b")] };
    let before = la.clone();
    assert!(matches!(la.save(&login("c")), SaveOutcome::Saved));
    assert_eq!(la.remove_bucket(Some("2")), Removal::Removed);
    assert_eq!(la, before);
}

#[test]
fn defaults_are_empty() {
    let l = Login::default();
    assert!(!l.logging_in);
    assert_eq!(l.bucket, "");
    assert!(LoginArray::default().buckets.is_empty());
    let d = ObjectDetails::default();
    assert_eq!(d.delete, "");
    assert_eq!(d.cred, Login::default());
    let c = cos_manager::cloud::Cloud::default();
    assert_eq!(c.credentials, Login::default());
    assert!(c.objectList.contents.is_empty());
    assert_eq!(c.token.scope, None);
}
