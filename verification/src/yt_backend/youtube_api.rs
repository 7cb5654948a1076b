//! Descriptions of the clients that talk to YouTube's internal API: their
//! names, versions, devices, the request context and the request headers.

use vstd::prelude::*;
use crate::json::{Json, JsonView, json_str, json_view, object_view, push_entry};
use crate::text::{has_infix, has_prefix, push_str, str_eq};

verus! {

/// Client type for YouTube API requests.
#[derive(Debug, Clone, Copy, PartialEq, Eq, Structural)]
pub enum ClientType {
    Web,
    WebEmbeddedPlayer,
    WebMobile,
    WebScreenEmbed,
    WebCreator,
    Android,
    AndroidEmbeddedPlayer,
    AndroidScreenEmbed,
    AndroidTestSuite,
    IOS,
    IOSEmbedded,
    IOSMusic,
    TvHtml5,
    TvHtml5ScreenEmbed,
    TvSimply,
}

impl Default for ClientType {
    /// The web client.
    fn default() -> (r: ClientType)
        ensures
            r == ClientType::Web,
    {
        ClientType::Web
    }
}

/// The client name sent to the API.
pub open spec fn client_name(t: ClientType) -> Seq<char> {
    match t {
        ClientType::Web => "WEB"@,
        ClientType::WebEmbeddedPlayer => "WEB_EMBEDDED_PLAYER"@,
        ClientType::WebMobile => "MWEB"@,
        ClientType::WebScreenEmbed => "WEB"@,
        ClientType::WebCreator => "WEB_CREATOR"@,
        ClientType::Android => "ANDROID"@,
        ClientType::AndroidEmbeddedPlayer => "ANDROID_EMBEDDED_PLAYER"@,
        ClientType::AndroidScreenEmbed => "ANDROID"@,
        ClientType::AndroidTestSuite => "ANDROID_TESTSUITE"@,
        ClientType::IOS => "IOS"@,
        ClientType::IOSEmbedded => "IOS_MESSAGES_EXTENSION"@,
        ClientType::IOSMusic => "IOS_MUSIC"@,
        ClientType::TvHtml5 => "TVHTML5"@,
        ClientType::TvHtml5ScreenEmbed => "TVHTML5_SIMPLY_EMBEDDED_PLAYER"@,
        ClientType::TvSimply => "TVHTML5_SIMPLY"@,
    }
}

/// The client number used in protobuf messages and headers.
pub open spec fn client_name_proto(t: ClientType) -> Seq<char> {
    match t {
        ClientType::Web => "1"@,
        ClientType::WebEmbeddedPlayer => "56"@,
        ClientType::WebMobile => "2"@,
        ClientType::WebScreenEmbed => "1"@,
        ClientType::WebCreator => "62"@,
        ClientType::Android => "3"@,
        ClientType::AndroidEmbeddedPlayer => "55"@,
        ClientType::AndroidScreenEmbed => "3"@,
        ClientType::AndroidTestSuite => "30"@,
        ClientType::IOS => "5"@,
        ClientType::IOSEmbedded => "66"@,
        ClientType::IOSMusic => "26"@,
        ClientType::TvHtml5 => "7"@,
        ClientType::TvHtml5ScreenEmbed => "85"@,
        ClientType::TvSimply => "74"@,
    }
}

/// The client version.
pub open spec fn client_version(t: ClientType) -> Seq<char> {
    match t {
        ClientType::Web => "2.20250222.10.00"@,
        ClientType::WebEmbeddedPlayer => "1.20250219.01.00"@,
        ClientType::WebMobile => "2.20250224.01.00"@,
        ClientType::WebScreenEmbed => "2.20250222.10.00"@,
        ClientType::WebCreator => "1.20241203.01.00"@,
        ClientType::Android => "19.35.36"@,
        ClientType::AndroidEmbeddedPlayer => "19.35.36"@,
        ClientType::AndroidScreenEmbed => "19.35.36"@,
        ClientType::AndroidTestSuite => "1.9"@,
        ClientType::IOS => "20.11.6"@,
        ClientType::IOSEmbedded => "20.11.6"@,
        ClientType::IOSMusic => "7.14"@,
        ClientType::TvHtml5 => "7.20250219.14.00"@,
        ClientType::TvHtml5ScreenEmbed => "2.0"@,
        ClientType::TvSimply => "1.0"@,
    }
}

/// The screen of the embedded clients.
pub open spec fn client_screen(t: ClientType) -> Option<Seq<char>> {
    match t {
        ClientType::WebScreenEmbed | ClientType::AndroidScreenEmbed
        | ClientType::AndroidEmbeddedPlayer | ClientType::TvHtml5ScreenEmbed => Some("EMBED"@),
        _ => None,
    }
}

/// The Android SDK version of the Android clients but the embedded player.
pub open spec fn client_android_sdk(t: ClientType) -> Option<i64> {
    match t {
        ClientType::Android | ClientType::AndroidScreenEmbed | ClientType::AndroidTestSuite => Some(
            33,
        ),
        _ => None,
    }
}

/// The user agent of the mobile app clients.
pub open spec fn client_user_agent(t: ClientType) -> Option<Seq<char>> {
    match t {
        ClientType::Android | ClientType::AndroidScreenEmbed => Some(
            "com.google.android.youtube/19.35.36 (Linux; U; Android 13; en_US; SM-S908E Build/TP1A.220624.014) gzip"@,
        ),
        ClientType::AndroidTestSuite => Some(
            "com.google.android.youtube/1.9 (Linux; U; Android 12; US) gzip"@,
        ),
        ClientType::IOS | ClientType::IOSEmbedded => Some(
            "com.google.ios.youtube/20.11.6 (iPhone14,5; U; CPU iOS 18_5 like Mac OS X;)"@,
        ),
        ClientType::IOSMusic => Some(
            "com.google.ios.youtubemusic/7.14 (iPhone14,5; U; CPU iOS 17_6 like Mac OS X;)"@,
        ),
        _ => None,
    }
}

/// The operating system of the client.
pub open spec fn client_os_name(t: ClientType) -> Option<Seq<char>> {
    match t {
        ClientType::Web | ClientType::WebEmbeddedPlayer | ClientType::WebScreenEmbed
        | ClientType::WebCreator => Some("Windows"@),
        ClientType::WebMobile | ClientType::Android | ClientType::AndroidEmbeddedPlayer
        | ClientType::AndroidScreenEmbed | ClientType::AndroidTestSuite => Some("Android"@),
        ClientType::IOS | ClientType::IOSEmbedded | ClientType::IOSMusic => Some("iPhone"@),
        _ => None,
    }
}

/// The version of the client's operating system.
pub open spec fn client_os_version(t: ClientType) -> Option<Seq<char>> {
    match t {
        ClientType::Web | ClientType::WebEmbeddedPlayer | ClientType::WebScreenEmbed
        | ClientType::WebCreator => Some("10.0"@),
        ClientType::WebMobile => Some("13"@),
        ClientType::Android | ClientType::AndroidEmbeddedPlayer | ClientType::AndroidScreenEmbed
        | ClientType::AndroidTestSuite => Some("13"@),
        ClientType::IOS | ClientType::IOSEmbedded => Some("18.5.0.22F76"@),
        _ => None,
    }
}

/// The platform of the client.
pub open spec fn client_platform(t: ClientType) -> Option<Seq<char>> {
    match t {
        ClientType::Web | ClientType::WebEmbeddedPlayer | ClientType::WebScreenEmbed
        | ClientType::WebCreator => Some("DESKTOP"@),
        ClientType::WebMobile | ClientType::Android | ClientType::AndroidEmbeddedPlayer
        | ClientType::AndroidScreenEmbed | ClientType::AndroidTestSuite | ClientType::IOS
        | ClientType::IOSEmbedded | ClientType::IOSMusic => Some("MOBILE"@),
        _ => None,
    }
}

/// The device maker of the iOS clients.
pub open spec fn client_device_make(t: ClientType) -> Option<Seq<char>> {
    match t {
        ClientType::IOS | ClientType::IOSEmbedded | ClientType::IOSMusic => Some("Apple"@),
        _ => None,
    }
}

/// The device model of the iOS clients.
pub open spec fn client_device_model(t: ClientType) -> Option<Seq<char>> {
    match t {
        ClientType::IOS | ClientType::IOSEmbedded | ClientType::IOSMusic => Some("iPhone14,5"@),
        _ => None,
    }
}

/// The view of an optional static string.
pub open spec fn opt_str(o: Option<&str>) -> Option<Seq<char>> {
    match o {
        Some(s) => Some(s@),
        None => None,
    }
}

impl ClientType {
    /// Get the client name for the API.
    pub fn name(&self) -> (r: &'static str)
        ensures
            r@ == client_name(*self),
    {
        match self {
            ClientType::Web => "WEB",
            ClientType::WebEmbeddedPlayer => "WEB_EMBEDDED_PLAYER",
            ClientType::WebMobile => "MWEB",
            ClientType::WebScreenEmbed => "WEB",
            ClientType::WebCreator => "WEB_CREATOR",
            ClientType::Android => "ANDROID",
            ClientType::AndroidEmbeddedPlayer => "ANDROID_EMBEDDED_PLAYER",
            ClientType::AndroidScreenEmbed => "ANDROID",
            ClientType::AndroidTestSuite => "ANDROID_TESTSUITE",
            ClientType::IOS => "IOS",
            ClientType::IOSEmbedded => "IOS_MESSAGES_EXTENSION",
            ClientType::IOSMusic => "IOS_MUSIC",
            ClientType::TvHtml5 => "TVHTML5",
            ClientType::TvHtml5ScreenEmbed => "TVHTML5_SIMPLY_EMBEDDED_PLAYER",
            ClientType::TvSimply => "TVHTML5_SIMPLY",
        }
    }

    /// Get the client name for protobuf.
    pub fn name_proto(&self) -> (r: &'static str)
        ensures
            r@ == client_name_proto(*self),
    {
        match self {
            ClientType::Web => "1",
            ClientType::WebEmbeddedPlayer => "56",
            ClientType::WebMobile => "2",
            ClientType::WebScreenEmbed => "1",
            ClientType::WebCreator => "62",
            ClientType::Android => "3",
            ClientType::AndroidEmbeddedPlayer => "55",
            ClientType::AndroidScreenEmbed => "3",
            ClientType::AndroidTestSuite => "30",
            ClientType::IOS => "5",
            ClientType::IOSEmbedded => "66",
            ClientType::IOSMusic => "26",
            ClientType::TvHtml5 => "7",
            ClientType::TvHtml5ScreenEmbed => "85",
            ClientType::TvSimply => "74",
        }
    }

    /// Get the client version.
    pub fn version(&self) -> (r: &'static str)
        ensures
            r@ == client_version(*self),
    {
        match self {
            ClientType::Web => "2.20250222.10.00",
            ClientType::WebEmbeddedPlayer => "1.20250219.01.00",
            ClientType::WebMobile => "2.20250224.01.00",
            ClientType::WebScreenEmbed => "2.20250222.10.00",
            ClientType::WebCreator => "1.20241203.01.00",
            ClientType::Android => "19.35.36",
            ClientType::AndroidEmbeddedPlayer => "19.35.36",
            ClientType::AndroidScreenEmbed => "19.35.36",
            ClientType::AndroidTestSuite => "1.9",
            ClientType::IOS => "20.11.6",
            ClientType::IOSEmbedded => "20.11.6",
            ClientType::IOSMusic => "7.14",
            ClientType::TvHtml5 => "7.20250219.14.00",
            ClientType::TvHtml5ScreenEmbed => "2.0",
            ClientType::TvSimply => "1.0",
        }
    }

    /// Get the screen type if applicable.
    pub fn screen(&self) -> (r: Option<&'static str>)
        ensures
            opt_str(r) == client_screen(*self),
    {
        match self {
            ClientType::WebScreenEmbed => Some("EMBED"),
            ClientType::AndroidScreenEmbed => Some("EMBED"),
            ClientType::AndroidEmbeddedPlayer => Some("EMBED"),
            ClientType::TvHtml5ScreenEmbed => Some("EMBED"),
            _ => None,
        }
    }

    /// Get the Android SDK version if applicable.
    pub fn android_sdk_version(&self) -> (r: Option<i64>)
        ensures
            r == client_android_sdk(*self),
    {
        match self {
            ClientType::Android | ClientType::AndroidScreenEmbed | ClientType::AndroidTestSuite => Some(
                33,
            ),
            _ => None,
        }
    }

    /// Get the user agent for this client.
    pub fn user_agent(&self) -> (r: Option<&'static str>)
        ensures
            opt_str(r) == client_user_agent(*self),
    {
        match self {
            ClientType::Android | ClientType::AndroidScreenEmbed => Some(
                "com.google.android.youtube/19.35.36 (Linux; U; Android 13; en_US; SM-S908E Build/TP1A.220624.014) gzip",
            ),
            ClientType::AndroidTestSuite => Some(
                "com.google.android.youtube/1.9 (Linux; U; Android 12; US) gzip",
            ),
            ClientType::IOS | ClientType::IOSEmbedded => Some(
                "com.google.ios.youtube/20.11.6 (iPhone14,5; U; CPU iOS 18_5 like Mac OS X;)",
            ),
            ClientType::IOSMusic => Some(
                "com.google.ios.youtubemusic/7.14 (iPhone14,5; U; CPU iOS 17_6 like Mac OS X;)",
            ),
            _ => None,
        }
    }

    /// Get the OS name.
    pub fn os_name(&self) -> (r: Option<&'static str>)
        ensures
            opt_str(r) == client_os_name(*self),
    {
        match self {
            ClientType::Web | ClientType::WebEmbeddedPlayer | ClientType::WebScreenEmbed
            | ClientType::WebCreator => Some("Windows"),
            ClientType::WebMobile | ClientType::Android | ClientType::AndroidEmbeddedPlayer
            | ClientType::AndroidScreenEmbed | ClientType::AndroidTestSuite => Some("Android"),
            ClientType::IOS | ClientType::IOSEmbedded | ClientType::IOSMusic => Some("iPhone"),
            _ => None,
        }
    }

    /// Get the OS version.
    pub fn os_version(&self) -> (r: Option<&'static str>)
        ensures
            opt_str(r) == client_os_version(*self),
    {
        match self {
            ClientType::Web | ClientType::WebEmbeddedPlayer | ClientType::WebScreenEmbed
            | ClientType::WebCreator => Some("10.0"),
            ClientType::WebMobile => Some("13"),
            ClientType::Android | ClientType::AndroidEmbeddedPlayer | ClientType::AndroidScreenEmbed
            | ClientType::AndroidTestSuite => Some("13"),
            ClientType::IOS | ClientType::IOSEmbedded => Some("18.5.0.22F76"),
            _ => None,
        }
    }

    /// Get the platform.
    pub fn platform(&self) -> (r: Option<&'static str>)
        ensures
            opt_str(r) == client_platform(*self),
    {
        match self {
            ClientType::Web | ClientType::WebEmbeddedPlayer | ClientType::WebScreenEmbed
            | ClientType::WebCreator => Some("DESKTOP"),
            ClientType::WebMobile | ClientType::Android | ClientType::AndroidEmbeddedPlayer
            | ClientType::AndroidScreenEmbed | ClientType::AndroidTestSuite | ClientType::IOS
            | ClientType::IOSEmbedded | ClientType::IOSMusic => Some("MOBILE"),
            _ => None,
        }
    }

    /// Get the device make.
    pub fn device_make(&self) -> (r: Option<&'static str>)
        ensures
            opt_str(r) == client_device_make(*self),
    {
        match self {
            ClientType::IOS | ClientType::IOSEmbedded | ClientType::IOSMusic => Some("Apple"),
            _ => None,
        }
    }

    /// Get the device model.
    pub fn device_model(&self) -> (r: Option<&'static str>)
        ensures
            opt_str(r) == client_device_model(*self),
    {
        match self {
            ClientType::IOS | ClientType::IOSEmbedded | ClientType::IOSMusic => Some("iPhone14,5"),
            _ => None,
        }
    }
}

/// One string entry of an object, where the value is present.
pub open spec fn opt_entry(key: Seq<char>, v: Option<Seq<char>>) -> Seq<(Seq<char>, JsonView)> {
    match v {
        Some(s) => seq![(key, JsonView::Str(s))],
        None => Seq::empty(),
    }
}

/// The entries of the `client` object of the request context.
pub open spec fn client_entries(t: ClientType, region: Seq<char>) -> Seq<(Seq<char>, JsonView)> {
    seq![
        ("hl"@, JsonView::Str("en"@)),
        ("gl"@, JsonView::Str(region)),
        ("clientName"@, JsonView::Str(client_name(t))),
        ("clientVersion"@, JsonView::Str(client_version(t))),
    ] + opt_entry("clientScreen"@, client_screen(t)) + match client_android_sdk(t) {
        Some(n) => seq![("androidSdkVersion"@, JsonView::Int(n))],
        None => Seq::empty(),
    } + opt_entry("deviceMake"@, client_device_make(t)) + opt_entry(
        "deviceModel"@,
        client_device_model(t),
    ) + opt_entry("osName"@, client_os_name(t)) + opt_entry("osVersion"@, client_os_version(t))
        + opt_entry("platform"@, client_platform(t))
}

/// The request context: the `client` object, and for an embedded client that
/// is asked about a video, the page that embeds it.
pub open spec fn context_view(t: ClientType, region: Seq<char>, video_id: Option<Seq<char>>) -> JsonView {
    JsonView::Object(
        seq![("client"@, JsonView::Object(client_entries(t, region)))] + match video_id {
            Some(id) => if client_screen(t) == Some("EMBED"@) {
                seq![
                    ("thirdParty"@, JsonView::Object(
                        seq![("embedUrl"@, JsonView::Str("https://www.youtube.com/embed/"@ + id))],
                    )),
                ]
            } else {
                Seq::empty()
            },
            None => Seq::empty(),
        },
    )
}

/// The headers of a request, as name and value.
pub open spec fn header_views(t: ClientType) -> Seq<(Seq<char>, Seq<char>)> {
    seq![
        ("Content-Type"@, "application/json; charset=UTF-8"@),
        ("Accept-Encoding"@, "gzip, deflate"@),
        ("x-goog-api-format-version"@, "2"@),
        ("x-youtube-client-name"@, client_name_proto(t)),
        ("x-youtube-client-version"@, client_version(t)),
    ] + match client_user_agent(t) {
        Some(ua) => seq![("User-Agent"@, ua)],
        None => Seq::empty(),
    }
}

/// The plain values of a list of string pairs.
pub open spec fn pair_views(v: Seq<(String, String)>) -> Seq<(Seq<char>, Seq<char>)> {
    v.map_values(|p: (String, String)| (p.0@, p.1@))
}

/// Client configuration for YouTube API requests.
#[derive(Debug, Clone)]
pub struct ClientConfig {
    pub client_type: ClientType,
    pub region: String,
}

impl Default for ClientConfig {
    /// The web client in the United States.
    fn default() -> (r: ClientConfig)
        ensures
            r.client_type == ClientType::Web,
            r.region@ == "US"@,
    {
        ClientConfig { client_type: ClientType::Web, region: "US".to_owned() }
    }
}

/// Appends a string entry where the value is present.
fn push_opt_entry(entries: &mut Vec<(String, Json)>, key: &str, v: Option<&'static str>)
    ensures
        object_view(final(entries)@) == object_view(old(entries)@) + opt_entry(key@, opt_str(v)),
{
    match v {
        Some(s) => push_entry(entries, key, json_str(s)),
        None => {},
    }
}

impl ClientConfig {
    /// Create a new client configuration.
    pub fn new(client_type: ClientType, region: &str) -> (r: ClientConfig)
        ensures
            r.client_type == client_type,
            r.region@ == region@,
    {
        ClientConfig { client_type, region: region.to_owned() }
    }

    /// Get the client name.
    pub fn name(&self) -> (r: &'static str)
        ensures
            r@ == client_name(self.client_type),
    {
        self.client_type.name()
    }

    /// Get the client name for protobuf.
    pub fn name_proto(&self) -> (r: &'static str)
        ensures
            r@ == client_name_proto(self.client_type),
    {
        self.client_type.name_proto()
    }

    /// Get the client version.
    pub fn version(&self) -> (r: &'static str)
        ensures
            r@ == client_version(self.client_type),
    {
        self.client_type.version()
    }

    /// Build the context for API requests.
    pub fn build_context(&self, video_id: Option<&str>) -> (r: Json)
        ensures
            json_view(r) == context_view(self.client_type, self.region@, opt_str(video_id)),
    {
        let t = self.client_type;
        let mut client: Vec<(String, Json)> = Vec::new();
        push_entry(&mut client, "hl", json_str("en"));
        push_entry(&mut client, "gl", json_str(self.region.as_str()));
        push_entry(&mut client, "clientName", json_str(self.name()));
        push_entry(&mut client, "clientVersion", json_str(self.version()));
        push_opt_entry(&mut client, "clientScreen", t.screen());
        match t.android_sdk_version() {
            Some(n) => push_entry(&mut client, "androidSdkVersion", Json::Int(n)),
            None => {},
        }
        push_opt_entry(&mut client, "deviceMake", t.device_make());
        push_opt_entry(&mut client, "deviceModel", t.device_model());
        push_opt_entry(&mut client, "osName", t.os_name());
        push_opt_entry(&mut client, "osVersion", t.os_version());
        push_opt_entry(&mut client, "platform", t.platform());
        assert(object_view(client@) =~= client_entries(t, self.region@));
        let ghost cv = JsonView::Object(client_entries(t, self.region@));
        let client = Json::Object(client);
        assert(json_view(client) == cv);
        let mut context: Vec<(String, Json)> = Vec::new();
        push_entry(&mut context, "client", client);
        assert(object_view(context@) =~= seq![("client"@, cv)]);
        match video_id {
            Some(id) => {
                let embedded = match t.screen() {
                    Some(s) => str_eq(s, "EMBED"),
                    None => false,
                };
                if embedded {
                    let mut url = "https://www.youtube.com/embed/".to_owned();
                    push_str(&mut url, id);
                    let mut third: Vec<(String, Json)> = Vec::new();
                    push_entry(&mut third, "embedUrl", Json::Str(url));
                    let third = Json::Object(third);
                    assert(json_view(third) == JsonView::Object(
                        seq![("embedUrl"@, JsonView::Str("https://www.youtube.com/embed/"@ + id@))],
                    ));
                    push_entry(&mut context, "thirdParty", third);
                    assert(client_screen(t) == Some("EMBED"@));
                    assert(object_view(context@) =~= context_view(t, self.region@, opt_str(video_id))->Object_0);
                } else {
                    assert(client_screen(t) != Some("EMBED"@));
                    assert(object_view(context@) =~= context_view(t, self.region@, opt_str(video_id))->Object_0);
                }
            },
            None => {
                assert(object_view(context@) =~= context_view(t, self.region@, opt_str(video_id))->Object_0);
            },
        }
        Json::Object(context)
    }

    /// Get headers for API requests.
    pub fn headers(&self) -> (r: Vec<(String, String)>)
        ensures
            pair_views(r@) == header_views(self.client_type),
    {
        let mut headers: Vec<(String, String)> = Vec::new();
        headers.push(("Content-Type".to_owned(), "application/json; charset=UTF-8".to_owned()));
        headers.push(("Accept-Encoding".to_owned(), "gzip, deflate".to_owned()));
        headers.push(("x-goog-api-format-version".to_owned(), "2".to_owned()));
        headers.push(("x-youtube-client-name".to_owned(), self.name_proto().to_owned()));
        headers.push(("x-youtube-client-version".to_owned(), self.version().to_owned()));
        match self.client_type.user_agent() {
            Some(ua) => headers.push(("User-Agent".to_owned(), ua.to_owned())),
            None => {},
        }
        assert(pair_views(headers@) =~= header_views(self.client_type));
        headers
    }
}

/// The mobile app clients, and only they, send a user agent, and the app
/// version that the user agent names is the client's own version.
pub proof fn lemma_user_agent_names_version(t: ClientType)
    ensures
        client_user_agent(t) is Some <==> (t is Android || t is AndroidScreenEmbed
            || t is AndroidTestSuite || t is IOS || t is IOSEmbedded || t is IOSMusic),
        client_user_agent(t) matches Some(ua) ==> has_infix(ua, client_version(t)),
{
    match t {
        ClientType::Android | ClientType::AndroidScreenEmbed => {
            reveal_strlit(
                "com.google.android.youtube/19.35.36 (Linux; U; Android 13; en_US; SM-S908E Build/TP1A.220624.014) gzip",
            );
            reveal_strlit("19.35.36");
            let ua = client_user_agent(t)->0;
            assert(ua.skip(27).take(8) =~= "19.35.36"@);
            assert(has_prefix(ua.skip(27), client_version(t)));
        },
        ClientType::AndroidTestSuite => {
            reveal_strlit("com.google.android.youtube/1.9 (Linux; U; Android 12; US) gzip");
            reveal_strlit("1.9");
            let ua = client_user_agent(t)->0;
            assert(ua.skip(27).take(3) =~= "1.9"@);
            assert(has_prefix(ua.skip(27), client_version(t)));
        },
        ClientType::IOS | ClientType::IOSEmbedded => {
            reveal_strlit(
                "com.google.ios.youtube/20.11.6 (iPhone14,5; U; CPU iOS 18_5 like Mac OS X;)",
            );
            reveal_strlit("20.11.6");
            let ua = client_user_agent(t)->0;
            assert(ua.skip(23).take(7) =~= "20.11.6"@);
            assert(has_prefix(ua.skip(23), client_version(t)));
        },
        ClientType::IOSMusic => {
            reveal_strlit(
                "com.google.ios.youtubemusic/7.14 (iPhone14,5; U; CPU iOS 17_6 like Mac OS X;)",
            );
            reveal_strlit("7.14");
            let ua = client_user_agent(t)->0;
            assert(ua.skip(28).take(4) =~= "7.14"@);
            assert(has_prefix(ua.skip(28), client_version(t)));
        },
        _ => {},
    }
}

} // verus!
