//! The objects of a bucket, the links to their details, and their sizes.
use vstd::prelude::*;
use crate::login::Login;
use crate::outside::{url_encode, url_encoded, byte_size_label, byte_size_shape};

verus! {

/// The owner of an object.
#[derive(Debug, Clone, PartialEq, PartialOrd)]
pub struct Owner {
    pub id: String,
    pub display_name: String,
}

/// One object of a bucket listing, with the links that the dashboard shows for it.
#[derive(Debug, Clone, PartialEq, PartialOrd)]
pub struct Content {
    pub key: String,
    pub last_modified: String,
    pub etag: String,
    pub size: i64,
    pub size_label: String,
    pub owner: Owner,
    pub storage_class: String,
    pub url: String,
    pub deleteurl: String,
}

/// A bucket listing.
#[derive(Debug, Clone, PartialEq)]
pub struct ListBucketResult {
    pub name: String,
    pub prefix: String,
    pub marker: String,
    pub max_keys: i64,
    pub delimiter: String,
    pub is_truncated: bool,
    pub contents: Vec<Content>,
}

/// An access token of the identity service.
#[derive(Debug, Clone, PartialEq)]
pub struct Token {
    pub access_token: String,
    pub refresh_token: String,
    pub ims_user_id: Option<i64>,
    pub token_type: Option<String>,
    pub expires_in: Option<i64>,
    pub expiration: Option<i64>,
    pub scope: Option<String>,
}

/// One bucket: its credentials, the token last obtained for it and its listing.
#[allow(non_snake_case)]
#[derive(Debug, Clone, PartialEq)]
pub struct Cloud {
    pub token: Token,
    pub objectList: ListBucketResult,
    pub credentials: Login,
}

/// The empty string.
pub open spec fn blank(s: String) -> bool {
    s@ == Seq::<char>::empty()
}

impl Default for Owner {
    fn default() -> (r: Owner)
        ensures
            blank(r.id),
            blank(r.display_name),
    {
        Owner { id: String::new(), display_name: String::new() }
    }
}

impl Default for Content {
    fn default() -> (r: Content)
        ensures
            blank(r.key),
            blank(r.last_modified),
            blank(r.etag),
            r.size == 0,
            blank(r.size_label),
            blank(r.owner.id),
            blank(r.owner.display_name),
            blank(r.storage_class),
            blank(r.url),
            blank(r.deleteurl),
    {
        Content {
            key: String::new(),
            last_modified: String::new(),
            etag: String::new(),
            size: 0,
            size_label: String::new(),
            owner: Owner::default(),
            storage_class: String::new(),
            url: String::new(),
            deleteurl: String::new(),
        }
    }
}

impl ListBucketResult {
    /// The empty listing.
    pub open spec fn is_blank(self) -> bool {
        &&& blank(self.name)
        &&& blank(self.prefix)
        &&& blank(self.marker)
        &&& self.max_keys == 0
        &&& blank(self.delimiter)
        &&& !self.is_truncated
        &&& self.contents@ == Seq::<Content>::empty()
    }
}

impl Default for ListBucketResult {
    fn default() -> (r: ListBucketResult)
        ensures
            r.is_blank(),
    {
        ListBucketResult {
            name: String::new(),
            prefix: String::new(),
            marker: String::new(),
            max_keys: 0,
            delimiter: String::new(),
            is_truncated: false,
            contents: Vec::new(),
        }
    }
}

impl Token {
    /// The token that has not been obtained yet.
    pub open spec fn is_blank(self) -> bool {
        &&& blank(self.access_token)
        &&& blank(self.refresh_token)
        &&& self.ims_user_id is None
        &&& self.token_type is None
        &&& self.expires_in is None
        &&& self.expiration is None
        &&& self.scope is None
    }
}

impl Default for Token {
    fn default() -> (r: Token)
        ensures
            r.is_blank(),
    {
        Token {
            access_token: String::new(),
            refresh_token: String::new(),
            ims_user_id: None,
            token_type: None,
            expires_in: None,
            expiration: None,
            scope: None,
        }
    }
}

/// The link to the details page of an object, its parts given already encoded.
pub open spec fn details_link_text(
    key: Seq<char>,
    last_modified: Seq<char>,
    size_label: Seq<char>,
    owner: Seq<char>,
    delete: bool,
) -> Seq<char> {
    "/details?key="@ + key + "&last_modified="@ + last_modified + "&size_label="@ + size_label
        + "&owner="@ + owner + "&delete="@ + (if delete {
        "true"@
    } else {
        "false"@
    })
}

/// Builds the link to the details page of an object from its encoded parts.
pub fn details_link(
    key: &str,
    last_modified: &str,
    size_label: &str,
    owner: &str,
    delete: bool,
) -> (r: String)
    ensures
        r@ == details_link_text(key@, last_modified@, size_label@, owner@, delete),
{
    let mut r = String::from_str("/details?key=");
    r.append(key);
    r.append("&last_modified=");
    r.append(last_modified);
    r.append("&size_label=");
    r.append(size_label);
    r.append("&owner=");
    r.append(owner);
    r.append("&delete=");
    if delete {
        r.append("true");
    } else {
        r.append("false");
    }
    r
}

impl Content {
    /// The link to the details page of this object, its parts url-encoded; with `delete`,
    /// the page deletes the object.
    pub open spec fn link(self, delete: bool) -> Seq<char> {
        details_link_text(
            url_encoded(self.key@),
            url_encoded(self.last_modified@),
            url_encoded(self.size_label@),
            url_encoded(self.owner.display_name@),
            delete,
        )
    }

    /// `after` is `before` with nothing changed but its two links.
    pub open spec fn same_but_links(before: Content, after: Content) -> bool {
        &&& after.key == before.key
        &&& after.last_modified == before.last_modified
        &&& after.etag == before.etag
        &&& after.size == before.size
        &&& after.size_label == before.size_label
        &&& after.owner == before.owner
        &&& after.storage_class == before.storage_class
    }

    /// `after` is `before` with its two links set.
    pub open spec fn links_set(before: Content, after: Content) -> bool {
        &&& Content::same_but_links(before, after)
        &&& after.url@ == before.link(false)
        &&& after.deleteurl@ == before.link(true)
    }

    /// Sets the link to the details page of this object and the one that deletes it.
    pub fn set_url(&mut self)
        ensures
            Content::links_set(*old(self), *final(self)),
    {
        let key = url_encode(self.key.as_str());
        let last_modified = url_encode(self.last_modified.as_str());
        let size_label = url_encode(self.size_label.as_str());
        let owner = url_encode(self.owner.display_name.as_str());
        self.url = details_link(
            key.as_str(),
            last_modified.as_str(),
            size_label.as_str(),
            owner.as_str(),
            false,
        );
        self.deleteurl = details_link(
            key.as_str(),
            last_modified.as_str(),
            size_label.as_str(),
            owner.as_str(),
            true,
        );
    }
}

/// The sum of the sizes of a sequence of objects.
pub open spec fn sizes_sum(s: Seq<Content>) -> int
    decreases s.len(),
{
    if s.len() == 0 {
        0
    } else {
        sizes_sum(s.drop_last()) + s.last().size
    }
}

/// Adding the sizes up one after another never leaves the range of `i64`.
pub open spec fn sizes_fit(s: Seq<Content>) -> bool {
    forall|k: int| 0 <= k <= s.len() ==> i64::MIN <= #[trigger] sizes_sum(s.take(k)) <= i64::MAX
}

/// The bits of a signed 64-bit number read as unsigned, as `as u64` does.
pub open spec fn as_unsigned(x: int) -> int {
    if x >= 0 {
        x
    } else {
        x + 0x1_0000_0000_0000_0000
    }
}

/// Reads the bits of a signed 64-bit number as unsigned.
pub fn unsigned_bits(x: i64) -> (r: u64)
    ensures
        r as int == as_unsigned(x as int),
{
    if x >= 0 {
        x as u64
    } else {
        let k: i64 = -(x + 1);
        u64::MAX - (k as u64)
    }
}

impl Default for Cloud {
    /// No credentials, no token and an empty listing.
    fn default() -> (r: Cloud)
        ensures
            r.token.is_blank(),
            r.objectList.is_blank(),
            blank(r.credentials.ibm_api_key_id),
            blank(r.credentials.ibm_service_instance_id),
            blank(r.credentials.endpoint_url),
            blank(r.credentials.bucket),
            !r.credentials.logging_in,
    {
        Cloud { token: Token::default(), objectList: ListBucketResult::default(), credentials: Login::default() }
    }
}

impl Cloud {
    /// The bucket was just made with credentials `input`: no token yet, an empty listing.
    pub open spec fn is_fresh_for(self, input: Login) -> bool {
        &&& self.credentials == input
        &&& self.token.is_blank()
        &&& self.objectList.is_blank()
    }

    /// A bucket with the given credentials, no token yet and an empty listing.
    pub fn new(input: Login) -> (r: Cloud)
        ensures
            r.is_fresh_for(input),
    {
        let c: Cloud = Cloud {
            credentials: input,
            token: Token::default(),
            objectList: ListBucketResult::default(),
        };
        return c;
    }

    /// `after` is `before` with nothing changed but the contents of its listing.
    pub open spec fn same_but_contents(before: Cloud, after: Cloud) -> bool {
        &&& after.token == before.token
        &&& after.credentials == before.credentials
        &&& after.objectList.name == before.objectList.name
        &&& after.objectList.prefix == before.objectList.prefix
        &&& after.objectList.marker == before.objectList.marker
        &&& after.objectList.max_keys == before.objectList.max_keys
        &&& after.objectList.delimiter == before.objectList.delimiter
        &&& after.objectList.is_truncated == before.objectList.is_truncated
    }

    /// `after` is `before` with the links of every listed object set.
    pub open spec fn all_links_set(before: Cloud, after: Cloud) -> bool {
        &&& Cloud::same_but_contents(before, after)
        &&& after.objectList.contents@.len() == before.objectList.contents@.len()
        &&& forall|i: int|
            0 <= i < before.objectList.contents@.len() ==> Content::links_set(
                before.objectList.contents@[i],
                #[trigger] after.objectList.contents@[i],
            )
    }

    /// Sets the links of every listed object.
    pub fn set_urls(&mut self)
        ensures
            Cloud::all_links_set(*old(self), *final(self)),
    {
        let n = self.objectList.contents.len();
        for i in 0..n
            invariant
                n == old(self).objectList.contents@.len(),
                Cloud::same_but_contents(*old(self), *self),
                self.objectList.contents@.len() == n,
                forall|j: int|
                    0 <= j < i ==> Content::links_set(
                        old(self).objectList.contents@[j],
                        #[trigger] self.objectList.contents@[j],
                    ),
                forall|j: int|
                    i <= j < n ==> #[trigger] self.objectList.contents@[j]
                        == old(self).objectList.contents@[j],
        {
            self.objectList.contents[i].set_url();
        }
    }

    /// The total size of the listed objects, as the bits of the `i64` sum read unsigned;
    /// `None` when adding the sizes up one after another leaves the range of `i64`.
    pub fn total_size_bytes(&self) -> (r: Option<u64>)
        ensures
            r is Some <==> sizes_fit(self.objectList.contents@),
            r matches Some(t) ==> t as int == as_unsigned(sizes_sum(self.objectList.contents@)),
    {
        let ghost s = self.objectList.contents@;
        let n = self.objectList.contents.len();
        let mut ret_val: i64 = 0;
        assert(s.take(0) =~= Seq::<Content>::empty());
        for i in 0..n
            invariant
                n == s.len(),
                s == self.objectList.contents@,
                ret_val == sizes_sum(s.take(i as int)),
                forall|k: int| 0 <= k <= i ==> i64::MIN <= #[trigger] sizes_sum(s.take(k)) <= i64::MAX,
        {
            assert(s.take(i + 1).drop_last() =~= s.take(i as int));
            let size = self.objectList.contents[i].size;
            if (size > 0 && ret_val > i64::MAX - size) || (size < 0 && ret_val < i64::MIN - size) {
                assert(!(i64::MIN <= sizes_sum(s.take(i + 1)) <= i64::MAX));
                return None;
            }
            ret_val = ret_val + size;
        }
        assert(s.take(n as int) =~= s);
        Some(unsigned_bits(ret_val))
    }

    /// The total size of the listed objects as `bytesize` shows it.
    pub fn get_total_size(&self) -> (r: String)
        requires
            sizes_fit(self.objectList.contents@),
        ensures
            byte_size_shape(as_unsigned(sizes_sum(self.objectList.contents@)) as u64, r@),
    {
        let total = self.total_size_bytes();
        byte_size_label(total.unwrap())
    }

    /// The address of one object of the bucket.
    pub fn object_url(&self, name: &str) -> (r: String)
        ensures
            r@ == self.credentials.endpoint_url@ + "/"@ + self.credentials.bucket@ + "/"@ + name@,
    {
        let mut r = self.credentials.endpoint_url.clone();
        r.append("/");
        r.append(self.credentials.bucket.as_str());
        r.append("/");
        r.append(name);
        r
    }

    /// The address that lists the objects of the bucket whose keys start with `prefix`.
    pub fn listing_url(&self, prefix: &str) -> (r: String)
        ensures
            r@ == self.credentials.endpoint_url@ + "/"@ + self.credentials.bucket@ + "?prefix="@
                + prefix@,
    {
        let mut r = self.credentials.endpoint_url.clone();
        r.append("/");
        r.append(self.credentials.bucket.as_str());
        r.append("?prefix=");
        r.append(prefix);
        r
    }

    /// The value of the authorization header: `bearer ` and the access token.
    pub fn authorization(&self) -> (r: String)
        ensures
            r@ == "bearer "@ + self.token.access_token@,
    {
        let mut r = String::from_str("bearer ");
        r.append(self.token.access_token.as_str());
        r
    }

    /// The form that asks the identity service for a token with the bucket's API key.
    pub fn token_request_form(&self) -> (r: Vec<(String, String)>)
        ensures
            r@.len() == 3,
            r@[0].0@ == "apikey"@,
            r@[0].1@ == self.credentials.ibm_api_key_id@,
            r@[1].0@ == "response_type"@,
            r@[1].1@ == "cloud_iam"@,
            r@[2].0@ == "grant_type"@,
            r@[2].1@ == "urn:ibm:params:oauth:grant-type:apikey"@,
    {
        let mut r: Vec<(String, String)> = Vec::new();
        r.push((String::from_str("apikey"), self.credentials.ibm_api_key_id.clone()));
        r.push((String::from_str("response_type"), String::from_str("cloud_iam")));
        r.push(
            (
                String::from_str("grant_type"),
                String::from_str("urn:ibm:params:oauth:grant-type:apikey"),
            ),
        );
        r
    }
}

} // verus!
