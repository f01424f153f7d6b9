//! Optional card recognition: what the local recognition service and the
//! Pokemon TCG API answer, and how the answers become results.

use crate::pack_gen::option_view;
use vstd::prelude::*;

verus! {

/// Response of the local recognition service (`cardId` or `card_id`).
#[derive(Debug, Clone)]
pub struct RecognitionResponse {
    pub card_id: Option<String>,
    pub card_id_alt: Option<String>,
}

pub open spec fn str_option_view(o: Option<&str>) -> Option<Seq<char>> {
    match o {
        Some(s) => Some(s@),
        None => None,
    }
}

/// The card id in an answer: `card_id`, or else `card_id_alt`.
pub open spec fn recognized_id(body: RecognitionResponse) -> Option<Seq<char>> {
    match body.card_id {
        Some(s) => Some(s@),
        None => option_view(body.card_id_alt),
    }
}

impl RecognitionResponse {
    /// The card id, from `card_id` or else from `card_id_alt`.
    pub fn card_id(&self) -> (r: Option<&str>)
        ensures
            str_option_view(r) == recognized_id(*self),
    {
        match &self.card_id {
            Some(s) => Some(s.as_str()),
            None => match &self.card_id_alt {
                Some(s) => Some(s.as_str()),
                None => None,
            },
        }
    }
}

/// Why recognition failed.
#[derive(Debug, Clone)]
pub enum RecognitionError {
    NotConfigured,
    Client(String),
    Service(String),
    /// The service answered with a non-2xx status (status, response body).
    ServiceUnavailable(u16, String),
    NoCardId,
}

/// The recognized card id, or `NoCardId` when the answer holds none.
pub fn card_id_result(body: &RecognitionResponse) -> (r: Result<String, RecognitionError>)
    ensures
        match r {
            Ok(id) => recognized_id(*body) == Some(id@),
            Err(e) => e is NoCardId && body.card_id is None && body.card_id_alt is None,
        },
        r is Ok <==> (body.card_id is Some || body.card_id_alt is Some),
{
    match body.card_id() {
        Some(id) => Ok(String::from_str(id)),
        None => Err(RecognitionError::NoCardId),
    }
}

/// `s` without its trailing slashes.
pub open spec fn without_trailing_slashes(s: Seq<char>) -> Seq<char>
    decreases s.len(),
{
    if s.len() > 0 && s.last() == '/' {
        without_trailing_slashes(s.drop_last())
    } else {
        s
    }
}

/// The recognition endpoint of the service at `service_url`: its trailing
/// slashes removed, then "/recognize".
pub fn recognize_endpoint(service_url: &str) -> (r: String)
    ensures
        r@ == without_trailing_slashes(service_url@) + "/recognize"@,
{
    let mut end = service_url.unicode_len();
    assert(service_url@.subrange(0, end as int) =~= service_url@);
    while end > 0 && service_url.get_char(end - 1) == '/'
        invariant
            end <= service_url@.len(),
            without_trailing_slashes(service_url@) == without_trailing_slashes(
                service_url@.subrange(0, end as int),
            ),
        decreases end,
    {
        assert(service_url@.subrange(0, end as int).drop_last() =~= service_url@.subrange(0, end - 1));
        end = end - 1;
    }
    let mut r = String::from_str(service_url.substring_char(0, end));
    r.append("/recognize");
    r
}

/// The Pokemon TCG API address of a card.
pub fn card_details_url(card_id: &str) -> (r: String)
    ensures
        r@ == "https://api.pokemontcg.io/v2/cards/"@ + card_id@,
{
    let mut r = String::from_str("https://api.pokemontcg.io/v2/cards/");
    r.append(card_id);
    r
}

/// Pokemon TCG API v2 card response (the part used).
#[derive(Debug, Clone)]
pub struct TcgCardResponse {
    pub data: TcgCardData,
}

#[derive(Debug, Clone)]
pub struct TcgCardData {
    pub id: String,
    pub name: String,
    pub set: TcgSet,
    pub images: TcgCardImages,
}

#[derive(Debug, Clone)]
pub struct TcgSet {
    pub name: String,
}

#[derive(Debug, Clone)]
pub struct TcgCardImages {
    pub large: Option<String>,
    pub small: Option<String>,
}

/// Details of a recognized card.
#[derive(Debug, Clone)]
pub struct CardDetails {
    pub id: String,
    pub name: String,
    pub set_name: String,
    pub image_url: String,
}

/// The card details in an API answer: the large image if there is one, else
/// the small one, else no image (empty).
pub fn card_details_from_response(body: TcgCardResponse) -> (d: CardDetails)
    ensures
        d.id == body.data.id,
        d.name == body.data.name,
        d.set_name == body.data.set.name,
        d.image_url@ == match body.data.images.large {
            Some(u) => u@,
            None => match body.data.images.small {
                Some(u) => u@,
                None => Seq::empty(),
            },
        },
{
    let image_url = match body.data.images.large {
        Some(u) => u,
        None => match body.data.images.small {
            Some(u) => u,
            None => String::new(),
        },
    };
    CardDetails { id: body.data.id, name: body.data.name, set_name: body.data.set.name, image_url }
}

} // verus!
