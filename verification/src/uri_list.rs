//! The fixed addresses of the presence and telemetry facets.

use crate::uri::{spec_d2d_uri, Uri};
use vstd::prelude::*;

verus! {

/// The fixed device-to-device addresses a device publishes and subscribes on.
pub struct UriList;

impl UriList {
    /// `hello` facet, liveness announcements.
    pub fn get_uri_hello(device_id: &str) -> (r: Uri)
        ensures
            r@ == spec_d2d_uri(device_id@, "hello"@, "V1"@, seq!["hello"@]),
    {
        let mut fields: Vec<String> = Vec::new();
        fields.push("hello".to_owned());
        proof {
            assert(fields@.map_values(|x: String| x@) =~= seq!["hello"@]);
        }
        Uri::new_d2d_uri(device_id.to_owned(), "hello".to_owned(), "V1".to_owned(), fields)
    }

    /// `hello` facet, discovery requests.
    pub fn get_uri_who_are_you(device_id: &str) -> (r: Uri)
        ensures
            r@ == spec_d2d_uri(device_id@, "hello"@, "V1"@, seq!["who-are-you"@]),
    {
        let mut fields: Vec<String> = Vec::new();
        fields.push("who-are-you".to_owned());
        proof {
            assert(fields@.map_values(|x: String| x@) =~= seq!["who-are-you"@]);
        }
        Uri::new_d2d_uri(device_id.to_owned(), "hello".to_owned(), "V1".to_owned(), fields)
    }

    /// `hello` facet, full self-description replies.
    pub fn get_uri_who_i_am(device_id: &str) -> (r: Uri)
        ensures
            r@ == spec_d2d_uri(device_id@, "hello"@, "V1"@, seq!["who-i-am"@]),
    {
        let mut fields: Vec<String> = Vec::new();
        fields.push("who-i-am".to_owned());
        proof {
            assert(fields@.map_values(|x: String| x@) =~= seq!["who-i-am"@]);
        }
        Uri::new_d2d_uri(device_id.to_owned(), "hello".to_owned(), "V1".to_owned(), fields)
    }

    /// `measurement-value` facet, humidity readings.
    pub fn get_uri_humidity(device_id: &str) -> (r: Uri)
        ensures
            r@ == spec_d2d_uri(device_id@, "measurement-value"@, "V1"@, seq!["humidity"@]),
    {
        let mut fields: Vec<String> = Vec::new();
        fields.push("humidity".to_owned());
        proof {
            assert(fields@.map_values(|x: String| x@) =~= seq!["humidity"@]);
        }
        Uri::new_d2d_uri(
            device_id.to_owned(),
            "measurement-value".to_owned(),
            "V1".to_owned(),
            fields,
        )
    }

    /// `measurement-value` facet, sound readings.
    pub fn get_uri_sound(device_id: &str) -> (r: Uri)
        ensures
            r@ == spec_d2d_uri(device_id@, "measurement-value"@, "V1"@, seq!["sound"@]),
    {
        let mut fields: Vec<String> = Vec::new();
        fields.push("sound".to_owned());
        proof {
            assert(fields@.map_values(|x: String| x@) =~= seq!["sound"@]);
        }
        Uri::new_d2d_uri(
            device_id.to_owned(),
            "measurement-value".to_owned(),
            "V1".to_owned(),
            fields,
        )
    }

    /// `measurement-value` facet, temperature readings.
    pub fn get_uri_temperature(device_id: &str) -> (r: Uri)
        ensures
            r@ == spec_d2d_uri(device_id@, "measurement-value"@, "V1"@, seq!["temp"@]),
    {
        let mut fields: Vec<String> = Vec::new();
        fields.push("temp".to_owned());
        proof {
            assert(fields@.map_values(|x: String| x@) =~= seq!["temp"@]);
        }
        Uri::new_d2d_uri(
            device_id.to_owned(),
            "measurement-value".to_owned(),
            "V1".to_owned(),
            fields,
        )
    }
}

} // verus!
