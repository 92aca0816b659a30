//! Publishing of events: to the log, or to a service over HTTP.
use crate::text;
use crate::text::{eq_str, trim_text};
use vstd::prelude::*;
use vstd::string::*;

pub mod debug_logger;
pub mod http_publisher;

verus! {

/// Where events are published.
#[derive(Debug)]
pub enum PublisherChoice {
    /// To the log.
    Debug,
    /// To this endpoint.
    Http { endpoint: String },
}

/// The id of a proxy that shadows another: the configured one, or else what the
/// file that holds it says, without the white space around it.
pub fn choose_shadow_id(configured: Option<String>, from_file: Option<String>) -> (r: Option<
    String,
>)
    ensures
        match (configured, from_file) {
            (Some(id), _) => r == Some(id),
            (None, Some(contents)) => r matches Some(id) && id@ == text::trimmed(contents@),
            (None, None) => r is None,
        },
{
    match (configured, from_file) {
        (Some(id), _) => Some(id),
        (None, Some(contents)) => Some(trim_text(contents.as_str())),
        (None, None) => None,
    }
}

/// Where events are published, for the configured type of publisher.
pub fn create_publisher(publisher_type: &str, http_endpoint: &Option<String>) -> (r: Result<
    PublisherChoice,
    String,
>)
    ensures
        if publisher_type@ == "debug"@ {
            r == Ok::<PublisherChoice, String>(PublisherChoice::Debug)
        } else if publisher_type@ == "http"@ {
            match *http_endpoint {
                Some(e) => r == Ok::<PublisherChoice, String>(PublisherChoice::Http { endpoint: e }),
                None => r matches Err(m) && m@
                    == "http_endpoint is required when publisher_type = 'http'"@,
            }
        } else {
            r matches Err(m) && m@ == "Unknown publisher type: "@ + publisher_type@
        },
{
    if eq_str(publisher_type, "debug") {
        Ok(PublisherChoice::Debug)
    } else if eq_str(publisher_type, "http") {
        match http_endpoint {
            Some(endpoint) => Ok(PublisherChoice::Http { endpoint: endpoint.clone() }),
            None => Err("http_endpoint is required when publisher_type = 'http'".to_owned()),
        }
    } else {
        let mut m = "Unknown publisher type: ".to_owned();
        m.append(publisher_type);
        Err(m)
    }
}

/// A configured id is taken as it is, whatever a file says; one from a file
/// neither begins nor ends with white space; without either there is none.
pub proof fn law_configured_id_comes_first(
    configured: Option<String>,
    from_file: Option<String>,
    r: Option<String>,
)
    requires
        call_ensures(choose_shadow_id, (configured, from_file), r),
    ensures
        configured is Some ==> r == configured,
        configured is None ==> (r is Some <==> from_file is Some),
        configured is None && r is Some && r->0@.len() > 0 ==> !text::white_space(r->0@[0])
            && !text::white_space(r->0@.last()),
{
    if configured is None && from_file is Some {
        text::law_trimming_takes_white_space_off(from_file->0@);
    }
}

/// Events go to the log or to an endpoint, which has to be configured; a type of
/// publisher that is neither is an error that names it.
pub proof fn law_publishers_are_chosen_by_type(
    publisher_type: &str,
    http_endpoint: &Option<String>,
    r: Result<PublisherChoice, String>,
)
    requires
        call_ensures(create_publisher, (publisher_type, http_endpoint), r),
    ensures
        r is Ok <==> publisher_type@ == "debug"@ || (publisher_type@ == "http"@
            && http_endpoint is Some),
        r matches Ok(PublisherChoice::Http { endpoint }) ==> publisher_type@ == "http"@
            && *http_endpoint == Some(endpoint),
        r matches Ok(PublisherChoice::Debug) ==> publisher_type@ == "debug"@,
        publisher_type@ != "debug"@ && publisher_type@ != "http"@ ==> (r matches Err(m) && m@
            == "Unknown publisher type: "@ + publisher_type@),
{
    reveal_strlit("debug");
    reveal_strlit("http");
    assert("debug"@.len() != "http"@.len());
}

} // verus!
