//! The details page of one object: what its query asks for.
use vstd::prelude::*;
use crate::login::Login;

verus! {

/// What the details page shows of an object, and whether it is asked to delete it.
#[derive(Debug, Clone, PartialEq)]
pub struct ObjectDetails {
    pub key: String,
    pub last_modified: String,
    pub size_label: String,
    pub owner: String,
    pub delete: String,
    pub cred: Login,
}

impl Default for ObjectDetails {
    /// All fields empty, the credentials those of an empty form.
    fn default() -> (r: ObjectDetails)
        ensures
            r.key@ == Seq::<char>::empty(),
            r.last_modified@ == Seq::<char>::empty(),
            r.size_label@ == Seq::<char>::empty(),
            r.owner@ == Seq::<char>::empty(),
            r.delete@ == Seq::<char>::empty(),
            r.cred.bucket@ == Seq::<char>::empty(),
            r.cred.endpoint_url@ == Seq::<char>::empty(),
            r.cred.ibm_api_key_id@ == Seq::<char>::empty(),
            r.cred.ibm_service_instance_id@ == Seq::<char>::empty(),
            !r.cred.logging_in,
    {
        ObjectDetails {
            key: String::new(),
            last_modified: String::new(),
            size_label: String::new(),
            owner: String::new(),
            delete: String::new(),
            cred: Login::default(),
        }
    }
}

impl ObjectDetails {
    /// The details of no object yet, for the bucket with credentials `l`, not deleting.
    pub fn new(l: Login) -> (r: ObjectDetails)
        ensures
            r.cred == l,
            r.key@ == Seq::<char>::empty(),
            r.last_modified@ == Seq::<char>::empty(),
            r.size_label@ == Seq::<char>::empty(),
            r.owner@ == Seq::<char>::empty(),
            r.delete@ == "false"@,
    {
        ObjectDetails {
            cred: l,
            key: String::new(),
            last_modified: String::new(),
            size_label: String::new(),
            owner: String::new(),
            delete: String::from_str("false"),
        }
    }

    /// Takes the fields that the page's query gave, when it could be read; the
    /// credentials stay.
    pub fn take_query(&mut self, query: Option<ObjectDetails>)
        ensures
            final(self).cred == old(self).cred,
            match query {
                Some(o) => {
                    &&& final(self).key == o.key
                    &&& final(self).last_modified == o.last_modified
                    &&& final(self).size_label == o.size_label
                    &&& final(self).owner == o.owner
                    &&& final(self).delete == o.delete
                },
                None => *final(self) == *old(self),
            },
    {
        match query {
            Some(o) => {
                self.key = o.key;
                self.last_modified = o.last_modified;
                self.size_label = o.size_label;
                self.owner = o.owner;
                self.delete = o.delete;
            },
            None => {},
        }
    }

    /// Whether the page is asked to delete the object: its `delete` field reads `true`.
    pub fn is_delete(&self) -> (r: bool)
        ensures
            r == (self.delete@ == "true"@),
    {
        self.delete == String::from_str("true")
    }
}

} // verus!
