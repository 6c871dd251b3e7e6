use cos_manager::login::{Login, LoginCheck};

fn full_login() -> Login {
    let mut l = Login::new();
    l.ibm_api_key_id = "key".to_string();
    l.ibm_service_instance_id = "instance".to_string();
    l.endpoint_url = "https://s3.example.com".to_string();
    l.bucket = "photos".to_string();
    l
}

#[test]
fn fresh_check_has_no_error() {
    let c = LoginCheck::new();
    assert!(!c.has_error());
    assert!(c.ibm_api_key_id.valid && c.bucket.valid);
    assert!(c.ibm_service_instance_id.valid && c.endpoint_url.valid);
    assert_eq!(c.endpoint_url.error_message, "");
}

#[test]
fn new_login_is_empty_and_logging_in() {
    let l = Login::new();
    assert!(l.logging_in);
    assert_eq!(l.bucket, "");
    assert_eq!(l.ibm_api_key_id, "");
    assert_eq!(l.ibm_service_instance_id, "");
    assert_eq!(l.endpoint_url, "");
}

#[test]
fn empty_form_is_refused_on_three_fields() {
    let c = Login::new().set_error();
    assert!(c.has_error());
    assert!(!c.ibm_api_key_id.valid);
    assert_eq!(c.ibm_api_key_id.error_message, "ibm_api_key_id required");
    assert!(!c.ibm_service_instance_id.valid);
    assert_eq!(c.ibm_service_instance_id.error_message, "ibm_service_instance_id required");
    assert!(!c.endpoint_url.valid);
    assert_eq!(c.endpoint_url.error_message, "endpoint_url required");
    assert!(c.bucket.valid);
}

#[test]
fn full_form_is_accepted() {
    let c = full_login().set_error();
    assert!(!c.has_error());
    assert_eq!(c.ibm_api_key_id.error_message, "");
}

#[test]
fn bucket_name_is_not_required() {
    let mut l = full_login();
    l.bucket = String::new();
    assert!(!l.set_error().has_error());
}

#[test]
fn missing_endpoint_alone_is_refused() {
    let mut l = full_login();
    l.endpoint_url = String::new();
    let c = l.set_error();
    assert!(c.has_error());
    assert!(c.ibm_api_key_id.valid);
    assert!(!c.endpoint_url.valid);
}

#[test]
fn each_setter_refuses_its_field() {
    let mut c = LoginCheck::new();
    c.set_ibm_api_key_id_error("bad key");
    assert!(c.has_error());
    assert!(!c.ibm_api_key_id.valid);
    assert_eq!(c.ibm_api_key_id.error_message, "bad key");
    assert!(c.endpoint_url.valid);

    let mut c = LoginCheck::new();
    c.set_ibm_service_instance_id_error("bad instance");
    assert!(c.has_error());
    assert_eq!(c.ibm_service_instance_id.error_message, "bad instance");

    let mut c = LoginCheck::new();
    c.set_endpoint_url_error("bad endpoint");
    assert!(c.has_error());
    assert_eq!(c.endpoint_url.error_message, "bad endpoint");
    assert!(c.ibm_api_key_id.valid);
}

#[test]
fn refused_bucket_field_is_no_error() {
    let mut c = LoginCheck::new();
    c.bucket.valid = false;
    assert!(!c.has_error());
}
