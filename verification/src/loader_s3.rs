//! The object storage: how it is reached, and what is made of its answers.

use vstd::prelude::*;
use crate::ordering;
use crate::text;
use crate::transcript;

verus! {

/// Region of the storage, where none is set.
pub const DEFAULT_S3_REGION: &'static str = "ru-1";

/// Address of the storage, where none is set.
pub const DEFAULT_S3_ENDPOINT_URL: &'static str = "https://s3.twcstorage.ru";

/// How the storage is reached.
#[derive(Debug, Clone)]
pub struct Config {
    pub region: String,
    pub access_key_id: String,
    pub secret_access_key: String,
    pub endpoint_url: String,
}

/// What is missing from the environment.
#[derive(Debug, Clone, Copy)]
pub enum ConfigError {
    MissingAccessKeyId,
    MissingSecretAccessKey,
}

impl ConfigError {
    /// The text of the error.
    pub open spec fn text(self) -> Seq<char> {
        match self {
            ConfigError::MissingAccessKeyId => "S3_ACCESS_KEY_ID is required"@,
            ConfigError::MissingSecretAccessKey => "S3_SECRET_ACCESS_KEY is required"@,
        }
    }

    /// The text of the error.
    pub fn message(&self) -> (r: String)
        ensures
            r@ == self.text(),
    {
        match self {
            ConfigError::MissingAccessKeyId => "S3_ACCESS_KEY_ID is required".to_string(),
            ConfigError::MissingSecretAccessKey => "S3_SECRET_ACCESS_KEY is required".to_string(),
        }
    }
}

/// What a variable of the environment says: its value without white space at the ends, where it is
/// set and anything is left.
pub open spec fn value_of(value: Option<Seq<char>>) -> Option<Seq<char>> {
    match value {
        Some(v) => if text::trimmed(v).len() > 0 {
            Some(text::trimmed(v))
        } else {
            None
        },
        None => None,
    }
}

/// What a variable of the environment says, or a default.
pub open spec fn value_or(value: Option<Seq<char>>, default: Seq<char>) -> Seq<char> {
    match value_of(value) {
        Some(v) => v,
        None => default,
    }
}

/// What a variable of the environment says.
pub fn env_value(value: Option<&str>) -> (r: Option<String>)
    ensures
        transcript::text_of(r) == value_of(transcript::chars_of(value)),
{
    match value {
        Some(v) => {
            let trimmed: String = text::trim(v);
            if trimmed.as_str().unicode_len() > 0 {
                Some(trimmed)
            } else {
                None
            }
        },
        None => None,
    }
}

/// What a variable of the environment says, or a default.
fn env_value_or(value: Option<&str>, default: &str) -> (r: String)
    ensures
        r@ == value_or(transcript::chars_of(value), default@),
{
    match env_value(value) {
        Some(v) => v,
        None => default.to_string(),
    }
}

impl Config {
    /// The configuration that `S3_REGION`, `S3_ACCESS_KEY_ID`, `S3_SECRET_ACCESS_KEY` and
    /// `S3_ENDPOINT_URL` describe. The two keys must be set, and the first of them that is not is
    /// the error; region and address have defaults.
    pub fn from_env(
        region: Option<&str>,
        access_key_id: Option<&str>,
        secret_access_key: Option<&str>,
        endpoint_url: Option<&str>,
    ) -> (r: Result<Config, ConfigError>)
        ensures
            r matches Err(ConfigError::MissingAccessKeyId) <==> value_of(
                transcript::chars_of(access_key_id),
            ) is None,
            r matches Err(ConfigError::MissingSecretAccessKey) <==> value_of(
                transcript::chars_of(access_key_id),
            ) is Some && value_of(transcript::chars_of(secret_access_key)) is None,
            r matches Ok(config) ==> {
                &&& config.region@ == value_or(transcript::chars_of(region), DEFAULT_S3_REGION@)
                &&& Some(config.access_key_id@) == value_of(transcript::chars_of(access_key_id))
                &&& Some(config.secret_access_key@) == value_of(
                    transcript::chars_of(secret_access_key),
                )
                &&& config.endpoint_url@ == value_or(
                    transcript::chars_of(endpoint_url),
                    DEFAULT_S3_ENDPOINT_URL@,
                )
            },
    {
        let region: String = env_value_or(region, DEFAULT_S3_REGION);
        let access_key_id: String = match env_value(access_key_id) {
            Some(v) => v,
            None => {
                return Err(ConfigError::MissingAccessKeyId);
            },
        };
        let secret_access_key: String = match env_value(secret_access_key) {
            Some(v) => v,
            None => {
                return Err(ConfigError::MissingSecretAccessKey);
            },
        };
        let endpoint_url: String = env_value_or(endpoint_url, DEFAULT_S3_ENDPOINT_URL);
        Ok(Config { region, access_key_id, secret_access_key, endpoint_url })
    }
}

/// Whether `S3_CREATE_BUCKET` allows a bucket to be created.
pub open spec fn allows_creation(value: Option<Seq<char>>) -> bool {
    match value {
        Some(v) => text::same_ignoring_case(v, "true"@) || v == "1"@,
        None => false,
    }
}

/// Whether `S3_CREATE_BUCKET` allows a bucket to be created.
pub fn should_create_bucket(value: Option<&str>) -> (r: bool)
    ensures
        r == allows_creation(transcript::chars_of(value)),
{
    match value {
        Some(v) => text::equals_ignoring_case(v, "true") || text::same_text(v, "1"),
        None => false,
    }
}

/// What to do next about a bucket.
#[derive(Debug, Clone)]
pub enum BucketStep {
    Ready,
    Create,
    Fail(String),
}

#[verifier::ext_equal]
pub enum BucketStepView {
    Ready,
    Create,
    Fail(Seq<char>),
}

impl View for BucketStep {
    type V = BucketStepView;

    open spec fn view(&self) -> BucketStepView {
        match self {
            BucketStep::Ready => BucketStepView::Ready,
            BucketStep::Create => BucketStepView::Create,
            BucketStep::Fail(context) => BucketStepView::Fail(context@),
        }
    }
}

/// What follows once it is known whether the bucket is available: one that is not is created
/// where that is allowed.
pub open spec fn step_after_head(
    bucket: Seq<char>,
    available: bool,
    may_create: bool,
) -> BucketStepView {
    if available {
        BucketStepView::Ready
    } else if may_create {
        BucketStepView::Create
    } else {
        BucketStepView::Fail(
            "bucket '"@ + bucket
                + "' is not available; check S3_BUCKET and credentials, or set S3_CREATE_BUCKET=true for local S3-compatible storage"@,
        )
    }
}

/// What follows once it is known whether the bucket is available.
pub fn after_head(bucket: &str, available: bool, may_create: bool) -> (r: BucketStep)
    ensures
        r@ == step_after_head(bucket@, available, may_create),
{
    if available {
        BucketStep::Ready
    } else if may_create {
        BucketStep::Create
    } else {
        let mut context: String = "bucket '".to_string();
        context.append(bucket);
        context.append(
            "' is not available; check S3_BUCKET and credentials, or set S3_CREATE_BUCKET=true for local S3-compatible storage",
        );
        BucketStep::Fail(context)
    }
}

/// The code of the error for a bucket that is there already and belongs to the same owner.
pub const ALREADY_OWNED: &'static str = "BucketAlreadyOwnedByYou";

/// What follows an attempt to create a bucket: one that is there already is as good as a new one.
pub open spec fn step_after_create(
    bucket: Seq<char>,
    created: bool,
    code: Option<Seq<char>>,
) -> BucketStepView {
    if created || code == Some(ALREADY_OWNED@) {
        BucketStepView::Ready
    } else {
        BucketStepView::Fail("create_bucket failed for "@ + bucket)
    }
}

/// What follows an attempt to create a bucket.
pub fn after_create(bucket: &str, created: bool, code: Option<&str>) -> (r: BucketStep)
    ensures
        r@ == step_after_create(bucket@, created, transcript::chars_of(code)),
{
    let owned: bool = match code {
        Some(c) => text::same_text(c, ALREADY_OWNED),
        None => false,
    };
    if created || owned {
        BucketStep::Ready
    } else {
        let mut context: String = "create_bucket failed for ".to_string();
        context.append(bucket);
        BucketStep::Fail(context)
    }
}

/// The keys of a listing that has objects without keys.
pub open spec fn keys_among(s: Seq<Option<String>>) -> Seq<Seq<char>> {
    s.filter(|key: Option<String>| key is Some).map_values(|key: Option<String>| key->0@)
}

/// The keys of a listing, in its order, without the objects that have none.
pub fn listed_keys(listing: Vec<Option<String>>) -> (r: Vec<String>)
    ensures
        ordering::texts_of(r@) == keys_among(listing@),
{
    let ghost present = |key: Option<String>| key is Some;
    let ghost name = |key: Option<String>| key->0@;
    let mut keys: Vec<String> = Vec::new();
    let mut i: usize = 0;
    assert(ordering::texts_of(keys@) == listing@.take(0).filter(present).map_values(name)) by {
        reveal(Seq::filter);
    }
    while i < listing.len()
        invariant
            i <= listing.len(),
            present == (|key: Option<String>| key is Some),
            name == (|key: Option<String>| key->0@),
            ordering::texts_of(keys@) == listing@.take(i as int).filter(present).map_values(name),
        decreases listing.len() - i,
    {
        let ghost before = ordering::texts_of(keys@);
        if let Some(key) = &listing[i] {
            keys.push(key.clone());
            assert(ordering::texts_of(keys@) == before.push(key@));
        }
        i = i + 1;
        proof {
            let kept = listing@.take(i - 1).filter(present);
            assert(listing@.take(i as int) == listing@.take(i - 1).push(listing@[i - 1]));
            listing@.take(i - 1).lemma_filter_push(listing@[i - 1], present);
            assert(kept.push(listing@[i - 1]).map_values(name) =~= kept.map_values(name).push(
                name(listing@[i - 1]),
            ));
        }
    }
    assert(listing@.take(i as int) == listing@);
    keys
}

/// A text with two names in quotes.
fn quoting(a: &str, first: &str, b: &str, second: &str) -> (r: String)
    ensures
        r@ == a@ + first@ + b@ + second@ + "'"@,
{
    let mut out: String = a.to_string();
    out.append(first);
    out.append(b);
    out.append(second);
    out.append("'");
    out
}

/// What failed where an object could not be downloaded.
pub fn download_context(bucket: &str, object_key: &str) -> (r: String)
    ensures
        r@ == "error downloading object '"@ + object_key@ + "' from bucket '"@ + bucket@ + "'"@,
{
    quoting("error downloading object '", object_key, "' from bucket '", bucket)
}

/// What failed where the body of an object could not be read.
pub fn body_context(object_key: &str) -> (r: String)
    ensures
        r@ == "error reading object body '"@ + object_key@ + "'"@,
{
    let mut out: String = "error reading object body '".to_string();
    out.append(object_key);
    out.append("'");
    out
}

/// What failed where the objects under a prefix could not be listed.
pub fn listing_context(bucket: &str, prefix: &str) -> (r: String)
    ensures
        r@ == "error listing objects in bucket '"@ + bucket@ + "' with prefix '"@ + prefix@
            + "'"@,
{
    quoting("error listing objects in bucket '", bucket, "' with prefix '", prefix)
}

/// What failed where an object could not be uploaded.
pub fn upload_context(bucket: &str, object_key: &str) -> (r: String)
    ensures
        r@ == "error uploading '"@ + object_key@ + "' to bucket '"@ + bucket@ + "'"@,
{
    quoting("error uploading '", object_key, "' to bucket '", bucket)
}

/// White space at the ends of a variable makes no difference.
pub proof fn law_outer_space_is_ignored(value: Seq<char>)
    ensures
        value_of(Some(text::trimmed(value))) == value_of(Some(value)),
{
    text::law_trimming_is_idempotent(value);
}

/// An available bucket is never created, and none is created where that is not allowed.
pub proof fn law_buckets_are_created_only_on_request(
    bucket: Seq<char>,
    available: bool,
    setting: Option<Seq<char>>,
)
    ensures
        step_after_head(bucket, available, allows_creation(setting)) is Create <==> !available
            && allows_creation(setting),
{
}

/// A variable says its value where that has no white space at its ends and is not empty; a blank
/// one says nothing, and then the default holds.
pub proof fn law_variables_say_their_values(value: Seq<char>, default: Seq<char>)
    ensures
        value_of(None) is None,
        value_or(None, default) == default,
        value.len() > 0 && !text::is_white_space(value[0]) && !text::is_white_space(value.last())
            ==> value_of(Some(value)) == Some(value) && value_or(Some(value), default) == value,
        (forall|k: int| 0 <= k < value.len() ==> text::is_white_space(#[trigger] value[k]))
            ==> value_of(Some(value)) is None && value_or(Some(value), default) == default,
        value_of(Some(value)) matches Some(said) ==> said == text::trimmed(value) && said.len() > 0
            && value_or(Some(value), default) == said,
{
    text::law_only_blank_texts_trim_to_nothing(value);
}

/// Creation is allowed by the digit one and by the word true in letters of any case, and by nothing
/// else.
pub proof fn law_creation_is_allowed_in_words(value: Seq<char>)
    ensures
        !allows_creation(None),
        allows_creation(Some(value)) <==> {
            ||| value.len() == 1 && value[0] == '1'
            ||| {
                &&& value.len() == 4
                &&& value[0] == 't' || value[0] == 'T'
                &&& value[1] == 'r' || value[1] == 'R'
                &&& value[2] == 'u' || value[2] == 'U'
                &&& value[3] == 'e' || value[3] == 'E'
            }
        },
{
    reveal_strlit("true");
    reveal_strlit("1");
    text::law_only_ascii_letters_have_case(value, "true"@);
    if value.len() == 1 && value[0] == '1' {
        assert(value =~= "1"@);
    }
    if value.len() == 4 {
        assert("true"@[0] == 't' && "true"@[1] == 'r' && "true"@[2] == 'u' && "true"@[3] == 'e');
        if text::same_ignoring_case(value, "true"@) {
            assert(value[0] == value[0] && value[1] == value[1] && value[2] == value[2]
                && value[3] == value[3]);
        }
    }
}

/// What becomes of a bucket: an available one is ready; one that is not is created where that is
/// allowed and else refused with its name; a new one and one that is owned already are ready, and
/// any other that cannot be created is refused with its name.
pub proof fn law_buckets_end_ready_or_refused(
    bucket: Seq<char>,
    may_create: bool,
    code: Option<Seq<char>>,
)
    ensures
        step_after_head(bucket, true, may_create) is Ready,
        step_after_head(bucket, false, true) is Create,
        step_after_head(bucket, false, false) == BucketStepView::Fail(
            "bucket '"@ + bucket
                + "' is not available; check S3_BUCKET and credentials, or set S3_CREATE_BUCKET=true for local S3-compatible storage"@,
        ),
        step_after_create(bucket, true, code) is Ready,
        step_after_create(bucket, false, Some("BucketAlreadyOwnedByYou"@)) is Ready,
        code != Some("BucketAlreadyOwnedByYou"@) ==> step_after_create(bucket, false, code)
            == BucketStepView::Fail("create_bucket failed for "@ + bucket),
{
}

/// A listing is gone through object by object: each key stays in its place among the others, and
/// only objects without a key are left out.
pub proof fn law_listings_keep_their_keys(
    a: Seq<Option<String>>,
    b: Seq<Option<String>>,
    key: String,
)
    ensures
        keys_among(a + b) == keys_among(a) + keys_among(b),
        keys_among(seq![Some(key)]) == seq![key@],
        keys_among(seq![None::<String>]) == Seq::<Seq<char>>::empty(),
{
    let present = |key: Option<String>| key is Some;
    let none = Seq::<Option<String>>::empty();
    Seq::filter_distributes_over_add(a, b, present);
    assert(keys_among(a + b) =~= keys_among(a) + keys_among(b));
    none.lemma_filter_push(Some(key), present);
    none.lemma_filter_push(None, present);
    assert(none.push(Some(key)) =~= seq![Some(key)]);
    assert(none.push(None) =~= seq![None::<String>]);
    assert(none.filter(present) =~= none) by {
        reveal(Seq::filter);
    }
    assert(keys_among(seq![Some(key)]) =~= seq![key@]);
    assert(keys_among(seq![None::<String>]) =~= Seq::<Seq<char>>::empty());
}

} // verus!
