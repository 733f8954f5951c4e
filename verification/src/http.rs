//! What is decided before clippings are sent: the endpoint, and the
//! batches the records travel in.

use vstd::prelude::*;
use crate::config::CKConfigHttp;
use crate::parser::{ClippingView, TClippingItem};
use crate::text::{chars_of, matches_at, starts_with};
use crate::time::rfc3339_text;

verus! {

/// What an output argument must begin with to name the service.
pub const HTTP: &'static str = "http";

/// How many requests may be under way at once.
pub const PARALLEL_REQUESTS: usize = 10;

/// How many records one request carries at most.
pub const BATCH_SIZE: usize = 20;

/// The book every uploaded record is filed under.
pub const BOOK_ID: &'static str = "0";

/// The source every uploaded record names.
pub const SOURCE: &'static str = "kindle";

/// The name of the operation that creates clippings.
pub const OPERATION_NAME: &'static str = "createClippings";

/// The query that creates clippings.
pub const CREATE_CLIPPINGS_QUERY: &'static str =
    "mutation createClippings($payload: [ClippingInput!]!, $visible: Boolean) {
    createClippings(payload: $payload, visible: $visible) {
        id
    }
}
";

/// Why no endpoint could be named.
#[derive(Debug, Clone, Copy, PartialEq, Eq, Structural)]
pub enum EndpointError {
    /// The argument does not begin with `http`.
    NotAllowed,
    /// The argument is the bare word `http`, and no endpoint is configured.
    NotFound,
}

/// What is said of an argument that does not name the service.
pub const NOT_ALLOWED: &'static str = "not allowed";

/// What is said where no endpoint is configured.
pub const ENDPOINT_NOT_FOUND: &'static str = "http endpoint not found";

impl EndpointError {
    /// The error in words.
    pub open spec fn message_text(&self) -> Seq<char> {
        match *self {
            EndpointError::NotAllowed => NOT_ALLOWED@,
            EndpointError::NotFound => ENDPOINT_NOT_FOUND@,
        }
    }

    /// The error in words.
    pub fn message(&self) -> (out: String)
        ensures
            out@ == self.message_text(),
    {
        match self {
            EndpointError::NotAllowed => NOT_ALLOWED.to_owned(),
            EndpointError::NotFound => ENDPOINT_NOT_FOUND.to_owned(),
        }
    }
}

/// One record as the service takes it.
#[derive(Debug, Clone)]
pub struct TClippingInput {
    pub title: String,
    pub content: String,
    pub book_id: &'static str,
    pub page_at: String,
    pub created_at: String,
    pub source: &'static str,
}

/// The variables of one request: a batch of records.
#[derive(Debug, Clone)]
pub struct CreateClippingPayload {
    pub visible: bool,
    pub payload: Vec<TClippingInput>,
}

/// What a `TClippingInput` holds, as plain sequences.
pub struct ClippingInputView {
    pub title: Seq<char>,
    pub content: Seq<char>,
    pub book_id: Seq<char>,
    pub page_at: Seq<char>,
    pub created_at: Seq<char>,
    pub source: Seq<char>,
}

impl View for TClippingInput {
    type V = ClippingInputView;

    open spec fn view(&self) -> ClippingInputView {
        ClippingInputView {
            title: self.title@,
            content: self.content@,
            book_id: self.book_id@,
            page_at: self.page_at@,
            created_at: self.created_at@,
            source: self.source@,
        }
    }
}

/// The endpoint configured, if there is one.
pub open spec fn configured_endpoint(config: Option<CKConfigHttp>) -> Option<Seq<char>> {
    match config {
        Some(http) => match http.endpoint {
            Some(endpoint) => Some(endpoint@),
            None => None,
        },
        None => None,
    }
}

/// The endpoint to send to: the argument itself where it is more than the
/// bare word `http`, else the configured endpoint.
pub open spec fn real_endpoint(arg: Seq<char>, configured: Option<Seq<char>>) -> Result<
    Seq<char>,
    EndpointError,
> {
    if !starts_with(arg, HTTP@) {
        Err(EndpointError::NotAllowed)
    } else if arg != HTTP@ {
        Ok(arg)
    } else {
        match configured {
            Some(endpoint) => Ok(endpoint),
            None => Err(EndpointError::NotFound),
        }
    }
}

/// The endpoint to send to.
pub fn get_real_endpoint(endpoint_in_arg: &String, ck_http_config: &Option<CKConfigHttp>) -> (r:
    Result<String, EndpointError>)
    ensures
        match real_endpoint(endpoint_in_arg@, configured_endpoint(*ck_http_config)) {
            Ok(endpoint) => r matches Ok(e) && e@ == endpoint,
            Err(error) => r == Err::<String, EndpointError>(error),
        },
{
    let arg = chars_of(endpoint_in_arg.as_str());
    let http = chars_of(HTTP);
    if !matches_at(arg.as_slice(), http.as_slice(), 0) {
        return Err(EndpointError::NotAllowed);
    }
    if arg.len() != http.len() {
        return Ok(endpoint_in_arg.clone());
    }
    assert(arg@ == arg@.subrange(0, http@.len() as int));
    if let Some(the_http_config) = ck_http_config {
        if let Some(endpoint) = &the_http_config.endpoint {
            return Ok(endpoint.clone());
        }
    }
    Err(EndpointError::NotFound)
}

/// A record as the service takes it: the timestamp as RFC 3339 text in
/// UTC, the book and the source fixed.
pub open spec fn input_of(item: ClippingView) -> ClippingInputView {
    ClippingInputView {
        title: item.title,
        content: item.content,
        book_id: BOOK_ID@,
        page_at: item.page_at,
        created_at: rfc3339_text(item.created_at),
        source: SOURCE@,
    }
}

/// The number of batches that `n` records travel in.
pub open spec fn batch_count(n: int) -> int {
    (n + BATCH_SIZE - 1) / (BATCH_SIZE as int)
}

/// Where batch `k` begins.
pub open spec fn batch_start(k: int) -> int {
    k * BATCH_SIZE
}

/// Where batch `k` of `n` records ends.
pub open spec fn batch_end(k: int, n: int) -> int {
    if (k + 1) * BATCH_SIZE <= n {
        (k + 1) * BATCH_SIZE
    } else {
        n
    }
}

/// `batch` carries exactly the records of `items` from `from` up to `to`.
pub open spec fn carries(
    batch: CreateClippingPayload,
    items: Seq<TClippingItem>,
    from: int,
    to: int,
) -> bool {
    &&& batch.visible
    &&& batch.payload@.len() == to - from
    &&& forall|j: int| 0 <= j < to - from ==> (#[trigger] batch.payload@[j])@ == input_of(items[from + j]@)
}

/// A record as the service takes it.
pub fn clipping_input(item: &TClippingItem) -> (input: TClippingInput)
    ensures
        input@ == input_of(item@),
{
    TClippingInput {
        title: item.title.clone(),
        content: item.content.clone(),
        book_id: BOOK_ID,
        page_at: item.page_at.clone(),
        created_at: item.created_at.to_rfc3339(),
        source: SOURCE,
    }
}

/// The batches that `result` travels in: every record once, in order,
/// twenty to a batch, the last batch holding the rest.
pub fn build_payloads(result: &Vec<TClippingItem>) -> (batches: Vec<CreateClippingPayload>)
    ensures
        batches@.len() == batch_count(result@.len() as int),
        forall|k: int|
            0 <= k < batches@.len() ==> carries(
                #[trigger] batches@[k],
                result@,
                batch_start(k),
                batch_end(k, result@.len() as int),
            ),
{
    let n = result.len();
    let mut batches: Vec<CreateClippingPayload> = Vec::new();
    let mut from: usize = 0;
    while from < n
        invariant
            n == result@.len(),
            from <= n,
            from == n ==> batches@.len() == batch_count(n as int),
            from < n ==> from == batches@.len() * BATCH_SIZE,
            forall|k: int|
                0 <= k < batches@.len() ==> carries(
                    #[trigger] batches@[k],
                    result@,
                    batch_start(k),
                    batch_end(k, n as int),
                ),
        decreases n - from,
    {
        let to: usize = if n - from > BATCH_SIZE {
            from + BATCH_SIZE
        } else {
            n
        };
        let mut payload: Vec<TClippingInput> = Vec::new();
        let mut i: usize = from;
        while i < to
            invariant
                from <= i <= to <= n,
                n == result@.len(),
                payload@.len() == i - from,
                forall|j: int| 0 <= j < i - from ==> (#[trigger] payload@[j])@ == input_of(result@[from + j]@),
            decreases to - i,
        {
            payload.push(clipping_input(&result[i]));
            i += 1;
        }
        let ghost k = batches@.len() as int;
        let batch = CreateClippingPayload { visible: true, payload };
        assert(batch_start(k) == from);
        assert(batch_end(k, n as int) == to);
        assert(carries(batch, result@, batch_start(k), batch_end(k, n as int)));
        batches.push(batch);
        from = to;
    }
    batches
}

} // verus!
