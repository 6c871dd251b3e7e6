//! What the pages decide about the buckets that a session knows of.
use vstd::prelude::*;
use crate::login::{Login, LoginArray, LoginCheck};
use crate::text::{parse_i32, parsed_i32};

verus! {

/// The bucket index that a page's `index` parameter asks for: its value as an `i32`,
/// and 0 when it is missing or cannot be read.
pub open spec fn requested_index(param: Option<Seq<char>>) -> int {
    match param {
        Some(p) => match parsed_i32(p) {
            Some(v) => v as int,
            None => 0,
        },
        None => 0,
    }
}

/// The bucket index that a page's `index` parameter asks for, 0 when it is missing or
/// cannot be read.
pub fn requested_bucket_index(param: Option<&str>) -> (r: i32)
    ensures
        r as int == requested_index(
            match param {
                Some(p) => Some(p@),
                None => None,
            },
        ),
{
    match param {
        Some(p) => match parse_i32(p) {
            Some(v) => v,
            None => 0,
        },
        None => 0,
    }
}

/// What the outcome of a login form is.
pub enum SaveOutcome {
    /// The form logs out; the check to show is a clean one.
    LoggedOut(LoginCheck),
    /// The form is refused; the check says why.
    Refused(LoginCheck),
    /// The bucket was added.
    Saved,
}

/// What became of a request to remove a bucket.
#[derive(Debug, Clone, Copy, PartialEq, Eq)]
pub enum Removal {
    /// The request names no index.
    Missing,
    /// The index cannot be read as an `i32`.
    Unreadable,
    /// The index names no bucket; nothing was removed.
    OutOfRange,
    /// The bucket at the index was removed.
    Removed,
}

impl LoginArray {
    /// `login` holds the credentials of the form `params`, and logs in.
    pub open spec fn saved_from(login: Login, params: Login) -> bool {
        &&& login.ibm_api_key_id == params.ibm_api_key_id
        &&& login.ibm_service_instance_id == params.ibm_service_instance_id
        &&& login.endpoint_url == params.endpoint_url
        &&& login.bucket == params.bucket
        &&& login.logging_in
    }

    /// The bucket to show on the dashboard for the index `index`: none when the index
    /// is negative or past the number of buckets. An index equal to the number of
    /// buckets passes this check.
    pub fn dashboard_bucket(&self, index: i32) -> (r: Option<usize>)
        ensures
            r == (if index < 0 || self.buckets@.len() < index {
                None::<usize>
            } else {
                Some(index as usize)
            }),
    {
        if index < 0 {
            None
        } else if self.buckets.len() < index as usize {
            None
        } else {
            Some(index as usize)
        }
    }

    /// Takes in a login form: without `logging_in` it logs out; a form without API key,
    /// service instance id or endpoint is refused; else the bucket is added at the end.
    pub fn save(&mut self, params: &Login) -> (r: SaveOutcome)
        ensures
            !params.logging_in ==> (r matches SaveOutcome::LoggedOut(check) && check.all_accepted())
                && final(self).buckets@ == old(self).buckets@,
            params.logging_in ==> match r {
                SaveOutcome::Refused(check) => {
                    &&& params.checked_by(check)
                    &&& check.spec_has_error()
                    &&& !params.has_required_fields()
                    &&& final(self).buckets@ == old(self).buckets@
                },
                SaveOutcome::Saved => {
                    &&& final(self).buckets@.len() == old(self).buckets@.len() + 1
                    &&& final(self).buckets@.drop_last() == old(self).buckets@
                    &&& LoginArray::saved_from(final(self).buckets@.last(), *params)
                    &&& params.has_required_fields()
                },
                SaveOutcome::LoggedOut(_) => false,
            },
    {
        if params.logging_in == false {
            return SaveOutcome::LoggedOut(LoginCheck::new());
        }
        let check = params.set_error();
        if check.has_error() {
            return SaveOutcome::Refused(check);
        }
        let mut l = Login::new();
        l.endpoint_url = params.endpoint_url.clone();
        l.ibm_api_key_id = params.ibm_api_key_id.clone();
        l.ibm_service_instance_id = params.ibm_service_instance_id.clone();
        l.bucket = params.bucket.clone();
        self.buckets.push(l);
        assert(self.buckets@.drop_last() =~= old(self).buckets@);
        SaveOutcome::Saved
    }

    /// Removes the bucket that the `index` parameter names.
    pub fn remove_bucket(&mut self, index_param: Option<&str>) -> (r: Removal)
        ensures
            match index_param {
                None => r == Removal::Missing && final(self).buckets@ == old(self).buckets@,
                Some(p) => match parsed_i32(p@) {
                    None => r == Removal::Unreadable && final(self).buckets@ == old(self).buckets@,
                    Some(i) => if 0 <= i < old(self).buckets@.len() {
                        r == Removal::Removed && final(self).buckets@ == old(self).buckets@.remove(
                            i as int,
                        )
                    } else {
                        r == Removal::OutOfRange && final(self).buckets@ == old(self).buckets@
                    },
                },
            },
    {
        match index_param {
            None => Removal::Missing,
            Some(p) => match parse_i32(p) {
                None => Removal::Unreadable,
                Some(i) => {
                    if 0 <= i && (i as usize) < self.buckets.len() {
                        let _ = self.buckets.remove(i as usize);
                        Removal::Removed
                    } else {
                        Removal::OutOfRange
                    }
                },
            },
        }
    }
}

} // verus!
