//! Credentials of a storage bucket, and the check of a login form.
use vstd::prelude::*;

verus! {

/// The message shown when the API key is missing.
pub open spec fn api_key_required_text() -> Seq<char> {
    "ibm_api_key_id required"@
}

/// The message shown when the service instance id is missing.
pub open spec fn service_instance_required_text() -> Seq<char> {
    "ibm_service_instance_id required"@
}

/// The message shown when the endpoint url is missing.
pub open spec fn endpoint_required_text() -> Seq<char> {
    "endpoint_url required"@
}

/// The verdict on one field of the login form.
pub struct FieldError {
    pub valid: bool,
    pub error_message: String,
}

impl FieldError {
    /// The field is accepted and carries no message.
    pub open spec fn is_accepted(self) -> bool {
        self.valid && self.error_message@ == Seq::<char>::empty()
    }

    /// The field is refused with the given message.
    pub open spec fn is_refused_with(self, message: Seq<char>) -> bool {
        !self.valid && self.error_message@ == message
    }

    /// An accepted field.
    pub fn accepted() -> (r: FieldError)
        ensures
            r.is_accepted(),
    {
        FieldError { valid: true, error_message: String::new() }
    }
}

/// The credentials of one bucket, as entered in the login form.
#[derive(Debug, Clone, PartialEq)]
pub struct Login {
    pub ibm_api_key_id: String,
    pub ibm_service_instance_id: String,
    pub endpoint_url: String,
    pub logging_in: bool,
    pub bucket: String,
}

/// The buckets that a session knows of, in the order they were added.
#[derive(Debug, Clone, PartialEq)]
pub struct LoginArray {
    pub buckets: Vec<Login>,
}

/// The verdict on each field of a login form.
pub struct LoginCheck {
    pub ibm_api_key_id: FieldError,
    pub bucket: FieldError,
    pub ibm_service_instance_id: FieldError,
    pub endpoint_url: FieldError,
}

impl Default for Login {
    /// An empty form that is not logging in.
    fn default() -> (r: Login)
        ensures
            r.ibm_api_key_id@ == Seq::<char>::empty(),
            r.ibm_service_instance_id@ == Seq::<char>::empty(),
            r.endpoint_url@ == Seq::<char>::empty(),
            !r.logging_in,
            r.bucket@ == Seq::<char>::empty(),
    {
        Login {
            ibm_api_key_id: String::new(),
            ibm_service_instance_id: String::new(),
            endpoint_url: String::new(),
            logging_in: false,
            bucket: String::new(),
        }
    }
}

impl Default for LoginArray {
    fn default() -> (r: LoginArray)
        ensures
            r.buckets@ == Seq::<Login>::empty(),
    {
        LoginArray { buckets: Vec::new() }
    }
}

impl LoginCheck {
    /// Every field is accepted.
    pub open spec fn all_accepted(self) -> bool {
        &&& self.ibm_api_key_id.is_accepted()
        &&& self.bucket.is_accepted()
        &&& self.ibm_service_instance_id.is_accepted()
        &&& self.endpoint_url.is_accepted()
    }

    /// Whether the form is refused: the bucket field is not consulted.
    pub open spec fn spec_has_error(self) -> bool {
        !self.ibm_api_key_id.valid || !self.ibm_service_instance_id.valid
            || !self.endpoint_url.valid
    }

    /// A check in which every field is accepted.
    pub fn new() -> (r: LoginCheck)
        ensures
            r.all_accepted(),
    {
        LoginCheck {
            bucket: FieldError::accepted(),
            ibm_api_key_id: FieldError::accepted(),
            ibm_service_instance_id: FieldError::accepted(),
            endpoint_url: FieldError::accepted(),
        }
    }

    /// Whether the API key, the service instance id or the endpoint was refused.
    pub fn has_error(&self) -> (r: bool)
        ensures
            r == self.spec_has_error(),
    {
        if !self.ibm_api_key_id.valid || !self.ibm_service_instance_id.valid
            || !self.endpoint_url.valid {
            return true;
        } else {
            return false;
        }
    }

    /// Refuses the API key with the given message.
    pub fn set_ibm_api_key_id_error(&mut self, err_message: &str)
        ensures
            final(self).ibm_api_key_id.is_refused_with(err_message@),
            final(self).bucket == old(self).bucket,
            final(self).ibm_service_instance_id == old(self).ibm_service_instance_id,
            final(self).endpoint_url == old(self).endpoint_url,
    {
        self.ibm_api_key_id.error_message = String::from_str(err_message);
        self.ibm_api_key_id.valid = false;
    }

    /// Refuses the service instance id with the given message.
    pub fn set_ibm_service_instance_id_error(&mut self, err_message: &str)
        ensures
            final(self).ibm_service_instance_id.is_refused_with(err_message@),
            final(self).bucket == old(self).bucket,
            final(self).ibm_api_key_id == old(self).ibm_api_key_id,
            final(self).endpoint_url == old(self).endpoint_url,
    {
        self.ibm_service_instance_id.error_message = String::from_str(err_message);
        self.ibm_service_instance_id.valid = false;
    }

    /// Refuses the endpoint url with the given message.
    pub fn set_endpoint_url_error(&mut self, err_message: &str)
        ensures
            final(self).endpoint_url.is_refused_with(err_message@),
            final(self).bucket == old(self).bucket,
            final(self).ibm_api_key_id == old(self).ibm_api_key_id,
            final(self).ibm_service_instance_id == old(self).ibm_service_instance_id,
    {
        self.endpoint_url.error_message = String::from_str(err_message);
        self.endpoint_url.valid = false;
    }
}

/// The verdict on a field: refused with `message` when `value` is empty, else accepted.
pub open spec fn field_verdict(field: FieldError, value: Seq<char>, message: Seq<char>) -> bool {
    if value.len() == 0 {
        field.is_refused_with(message)
    } else {
        field.is_accepted()
    }
}

impl Login {
    /// The API key, the service instance id and the endpoint are all given.
    pub open spec fn has_required_fields(self) -> bool {
        &&& self.ibm_api_key_id@.len() > 0
        &&& self.ibm_service_instance_id@.len() > 0
        &&& self.endpoint_url@.len() > 0
    }

    /// What `set_error` decides of this login.
    pub open spec fn checked_by(self, check: LoginCheck) -> bool {
        &&& field_verdict(check.ibm_api_key_id, self.ibm_api_key_id@, api_key_required_text())
        &&& field_verdict(
            check.ibm_service_instance_id,
            self.ibm_service_instance_id@,
            service_instance_required_text(),
        )
        &&& field_verdict(check.endpoint_url, self.endpoint_url@, endpoint_required_text())
        &&& check.bucket.is_accepted()
    }

    /// An empty login form that is logging in.
    pub fn new() -> (r: Login)
        ensures
            r.bucket@ == Seq::<char>::empty(),
            r.ibm_api_key_id@ == Seq::<char>::empty(),
            r.ibm_service_instance_id@ == Seq::<char>::empty(),
            r.endpoint_url@ == Seq::<char>::empty(),
            r.logging_in,
    {
        return Login {
            bucket: String::new(),
            ibm_api_key_id: String::new(),
            ibm_service_instance_id: String::new(),
            endpoint_url: String::new(),
            logging_in: true,
        };
    }

    /// Checks the form: the API key, the service instance id and the endpoint are required.
    pub fn set_error(&self) -> (r: LoginCheck)
        ensures
            self.checked_by(r),
    {
        let mut ret_val = LoginCheck::new();
        if self.ibm_api_key_id.as_str().is_empty() {
            ret_val.ibm_api_key_id.valid = false;
            ret_val.ibm_api_key_id.error_message = String::from_str("ibm_api_key_id required");
        }
        if self.ibm_service_instance_id.as_str().is_empty() {
            ret_val.ibm_service_instance_id.valid = false;
            ret_val.ibm_service_instance_id.error_message = String::from_str(
                "ibm_service_instance_id required",
            );
        }
        if self.endpoint_url.as_str().is_empty() {
            ret_val.endpoint_url.valid = false;
            ret_val.endpoint_url.error_message = String::from_str("endpoint_url required");
        }
        return ret_val;
    }
}

} // verus!
