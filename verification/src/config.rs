//! The stored configuration: where to send clippings, and with which
//! request headers.

use vstd::prelude::*;
use vstd::string::StringExecFns;
use crate::text::{chars_of, matches_at, remove_occurrences, starts_with, string_of,
    without_occurrences};

verus! {

/// The service endpoint that a configuration without one falls back to.
pub const CK_ENDPOINT: &'static str = "https://clippingkk-api.annatarhe.com/api/v2/graphql";

/// The name of the header that carries the token.
pub const AUTHORIZATION: &'static str = "Authorization";

/// What stands before the token in the header's value.
pub const TOKEN_SCHEME: &'static str = "X-CLI ";

/// The configuration file in the home directory.
pub const DEFAULT_FILE: &'static str = ".ck-cli.toml";

/// The whole configuration.
#[derive(Clone)]
pub struct CKConfig {
    pub http: Option<CKConfigHttp>,
}

/// The part about the service: its endpoint, and the headers of each
/// request as pairs of name and value. No name stands twice.
///
/// The headers are pairs and not a hash map: vstd states nothing of a hash
/// map whose keys are strings, so nothing could be proved of one.
/// `header_map` gives the pairs as the map they stand for.
#[derive(Clone)]
pub struct CKConfigHttp {
    pub endpoint: Option<String>,
    pub headers: Option<Vec<(String, String)>>,
}

/// Why no configuration could be had.
#[derive(Debug, Clone, Copy, PartialEq, Eq, Structural)]
pub enum ConfigError {
    /// A configuration file was named and is not there.
    NotFound,
}

/// What is said of a named file that is not there.
pub const CONFIG_NOT_FOUND: &'static str = "config not found";

impl ConfigError {
    /// The error in words.
    pub open spec fn message_text(&self) -> Seq<char> {
        match *self {
            ConfigError::NotFound => CONFIG_NOT_FOUND@,
        }
    }

    /// The error in words.
    pub fn message(&self) -> (out: String)
        ensures
            out@ == self.message_text(),
    {
        match self {
            ConfigError::NotFound => CONFIG_NOT_FOUND.to_owned(),
        }
    }
}

/// Where the configuration file is looked for.
#[derive(Debug, Clone)]
pub enum ConfigLocation {
    /// In the home directory, under the usual name.
    HomeDefault,
    /// In the home directory, at this path below it.
    UnderHome(String),
    /// At this path.
    Given(String),
}

/// What a `ConfigLocation` holds, as plain sequences.
pub enum ConfigLocationView {
    HomeDefault,
    UnderHome(Seq<char>),
    Given(Seq<char>),
}

impl View for ConfigLocation {
    type V = ConfigLocationView;

    open spec fn view(&self) -> ConfigLocationView {
        match *self {
            ConfigLocation::HomeDefault => ConfigLocationView::HomeDefault,
            ConfigLocation::UnderHome(path) => ConfigLocationView::UnderHome(path@),
            ConfigLocation::Given(path) => ConfigLocationView::Given(path@),
        }
    }
}

/// What to do about the configuration once it is known whether its file
/// is there.
#[derive(Debug, Clone, Copy, PartialEq, Eq, Structural)]
pub enum ConfigAction {
    /// Read the file.
    Load,
    /// Write the empty configuration, and use it.
    CreateEmpty,
    /// Give up.
    Fail(ConfigError),
}

/// The `~/` that a path below the home directory is written with.
pub const HOME_PREFIX: &'static str = "~/";

/// The `~` that marks such a path.
pub const HOME_MARK: &'static str = "~";

/// Where the configuration is looked for: no path means the usual file in
/// the home directory; a path that begins with `~` is taken below the home
/// directory, without any `~/` in it; any other path is taken as it is.
pub open spec fn location_of(config_path: Seq<char>) -> ConfigLocationView {
    if config_path.len() == 0 {
        ConfigLocationView::HomeDefault
    } else if starts_with(config_path, HOME_MARK@) {
        ConfigLocationView::UnderHome(without_occurrences(config_path, HOME_PREFIX@))
    } else {
        ConfigLocationView::Given(config_path)
    }
}

/// What to do: read a file that is there; create the usual file where
/// it is missing; give up where a named file is missing.
pub open spec fn action_of(path_given: bool, file_exists: bool) -> ConfigAction {
    if file_exists {
        ConfigAction::Load
    } else if path_given {
        ConfigAction::Fail(ConfigError::NotFound)
    } else {
        ConfigAction::CreateEmpty
    }
}

/// Where the configuration is looked for.
pub fn config_location(config_path: &String) -> (location: ConfigLocation)
    ensures
        location@ == location_of(config_path@),
{
    let chars = chars_of(config_path.as_str());
    let mark = chars_of(HOME_MARK);
    if chars.len() == 0 {
        ConfigLocation::HomeDefault
    } else if matches_at(chars.as_slice(), mark.as_slice(), 0) {
        let prefix = chars_of(HOME_PREFIX);
        let below = remove_occurrences(chars.as_slice(), prefix.as_slice());
        ConfigLocation::UnderHome(string_of(below.as_slice()))
    } else {
        ConfigLocation::Given(config_path.clone())
    }
}

/// What to do about the configuration.
pub fn config_action(path_given: bool, file_exists: bool) -> (action: ConfigAction)
    ensures
        action == action_of(path_given, file_exists),
{
    if file_exists {
        ConfigAction::Load
    } else if path_given {
        ConfigAction::Fail(ConfigError::NotFound)
    } else {
        ConfigAction::CreateEmpty
    }
}

/// Headers as pairs of plain sequences.
pub open spec fn header_views(h: Seq<(String, String)>) -> Seq<(Seq<char>, Seq<char>)> {
    h.map_values(|e: (String, String)| (e.0@, e.1@))
}

/// No header name stands twice.
pub open spec fn has_distinct_names(h: Seq<(Seq<char>, Seq<char>)>) -> bool {
    forall|i: int, j: int| 0 <= i < h.len() && 0 <= j < h.len() && i != j ==> h[i].0 != h[j].0
}

/// The headers as a map from name to value; of two headers with one name
/// the later counts.
pub open spec fn header_map(h: Seq<(Seq<char>, Seq<char>)>) -> Map<Seq<char>, Seq<char>>
    decreases h.len(),
{
    if h.len() == 0 {
        Map::empty()
    } else {
        header_map(h.drop_last()).insert(h.last().0, h.last().1)
    }
}

/// The headers of `h` whose name is not `name`, in order.
pub open spec fn without_name(h: Seq<(Seq<char>, Seq<char>)>, name: Seq<char>) -> Seq<
    (Seq<char>, Seq<char>),
>
    decreases h.len(),
{
    if h.len() == 0 {
        h
    } else if h.last().0 == name {
        without_name(h.drop_last(), name)
    } else {
        without_name(h.drop_last(), name).push(h.last())
    }
}

/// `h` with the header `name` set to `value`: the other headers stay, in
/// order, and the header set comes last.
pub open spec fn with_header(h: Seq<(Seq<char>, Seq<char>)>, name: Seq<char>, value: Seq<char>) -> Seq<
    (Seq<char>, Seq<char>),
> {
    without_name(h, name).push((name, value))
}

/// The endpoint of a configuration, as plain text if there is one.
pub open spec fn endpoint_of(config: CKConfig) -> Option<Seq<char>> {
    match config.http {
        Some(http) => match http.endpoint {
            Some(endpoint) => Some(endpoint@),
            None => None,
        },
        None => None,
    }
}

/// The headers of a configuration; none where it names none.
pub open spec fn headers_of(config: CKConfig) -> Seq<(Seq<char>, Seq<char>)> {
    match config.http {
        Some(http) => match http.headers {
            Some(headers) => header_views(headers@),
            None => Seq::empty(),
        },
        None => Seq::empty(),
    }
}

/// Whether a configuration names headers at all, be it none.
pub open spec fn names_headers(config: CKConfig) -> bool {
    match config.http {
        Some(http) => http.headers is Some,
        None => false,
    }
}

/// The value of the authorization header for `token`.
pub open spec fn token_value(token: Seq<char>) -> Seq<char> {
    TOKEN_SCHEME@ + token
}

/// Nothing of what `without_name` keeps has the name, and every header it
/// keeps was there before.
pub proof fn lemma_without_name(h: Seq<(Seq<char>, Seq<char>)>, name: Seq<char>)
    ensures
        forall|i: int| 0 <= i < without_name(h, name).len() ==> (#[trigger] without_name(h, name)[i]).0 != name,
        forall|i: int| 0 <= i < without_name(h, name).len() ==> h.contains(#[trigger] without_name(h, name)[i]),
        has_distinct_names(h) ==> has_distinct_names(without_name(h, name)),
        header_map(without_name(h, name)) == header_map(h).remove(name),
    decreases h.len(),
{
    if h.len() > 0 {
        let init = h.drop_last();
        lemma_without_name(init, name);
        let kept = without_name(init, name);
        assert forall|i: int| 0 <= i < kept.len() implies h.contains(#[trigger] kept[i]) by {
            let k = choose|k: int| 0 <= k < init.len() && init[k] == kept[i];
            assert(h[k] == kept[i]);
        }
        if h.last().0 == name {
            assert(header_map(h).remove(name) =~= header_map(init).remove(name));
        } else {
            let out = kept.push(h.last());
            assert(out.drop_last() == kept);
            assert(header_map(out) =~= header_map(h).remove(name));
            assert(h.contains(h.last())) by {
                assert(h[h.len() - 1] == h.last());
            }
            if has_distinct_names(h) {
                assert(has_distinct_names(init));
                assert forall|i: int, j: int|
                    0 <= i < out.len() && 0 <= j < out.len() && i != j implies out[i].0
                    != out[j].0 by {
                    if i < kept.len() && j < kept.len() {
                    } else if i < kept.len() {
                        let k = choose|k: int| 0 <= k < init.len() && init[k] == kept[i];
                        assert(h[k].0 != h[h.len() - 1].0);
                    } else {
                        let k = choose|k: int| 0 <= k < init.len() && init[k] == kept[j];
                        assert(h[k].0 != h[h.len() - 1].0);
                    }
                }
            }
        }
    } else {
        assert(header_map(h).remove(name) =~= header_map(h));
    }
}

/// Setting a header is an insertion into the map of headers, and keeps the
/// names distinct.
pub proof fn lemma_with_header(h: Seq<(Seq<char>, Seq<char>)>, name: Seq<char>, value: Seq<char>)
    ensures
        header_map(with_header(h, name, value)) == header_map(h).insert(name, value),
        has_distinct_names(h) ==> has_distinct_names(with_header(h, name, value)),
{
    lemma_without_name(h, name);
    let kept = without_name(h, name);
    let out = with_header(h, name, value);
    assert(out.drop_last() == kept);
    assert(header_map(out) =~= header_map(h).insert(name, value));
}

impl CKConfig {
    /// No header name stands twice.
    pub open spec fn is_well_formed(&self) -> bool {
        has_distinct_names(headers_of(*self))
    }

    /// The configuration with the authorization header set for
    /// `new_token`. The endpoint stays; where there was none, it becomes
    /// the service's own. The other headers stay.
    pub fn update_token(self, new_token: &String) -> (r: Result<CKConfig, ConfigError>)
        ensures
            r is Ok,
            r matches Ok(config) ==> {
                &&& endpoint_of(config) == Some(
                    match endpoint_of(self) {
                        Some(endpoint) => endpoint,
                        None => CK_ENDPOINT@,
                    },
                )
                &&& names_headers(config)
                &&& headers_of(config) == with_header(
                    headers_of(self),
                    AUTHORIZATION@,
                    token_value(new_token@),
                )
                &&& self.is_well_formed() ==> config.is_well_formed()
            },
    {
        let ghost before = headers_of(self);
        let (endpoint, old_headers) = match self.http {
            Some(http) => (http.endpoint, http.headers),
            None => (None, None),
        };
        let http_endpoint = match endpoint {
            Some(endpoint) => endpoint,
            None => CK_ENDPOINT.to_owned(),
        };
        let old_headers = match old_headers {
            Some(headers) => headers,
            None => Vec::new(),
        };
        assert(header_views(old_headers@) == before);
        let name = AUTHORIZATION.to_owned();
        let token_val = TOKEN_SCHEME.to_owned().concat(new_token.as_str());
        let mut http_headers: Vec<(String, String)> = Vec::new();
        let mut i: usize = 0;
        assert(before.take(0) == Seq::<(Seq<char>, Seq<char>)>::empty());
        assert(header_views(http_headers@) == Seq::<(Seq<char>, Seq<char>)>::empty());
        while i < old_headers.len()
            invariant
                i <= old_headers.len(),
                name@ == AUTHORIZATION@,
                before == header_views(old_headers@),
                header_views(http_headers@) == without_name(before.take(i as int), name@),
            decreases old_headers.len() - i,
        {
            proof {
                let next = before.take(i + 1);
                assert(next.drop_last() == before.take(i as int));
                assert(next.last() == (old_headers@[i as int].0@, old_headers@[i as int].1@));
            }
            if old_headers[i].0 != name {
                let entry = (old_headers[i].0.clone(), old_headers[i].1.clone());
                assert(header_views(http_headers@.push(entry)) == header_views(http_headers@).push(
                    (entry.0@, entry.1@),
                ));
                http_headers.push(entry);
            }
            i += 1;
        }
        proof {
            assert(before.take(old_headers.len() as int) == before);
            let entry = (name, token_val);
            assert(header_views(http_headers@.push(entry)) == header_views(http_headers@).push(
                (entry.0@, entry.1@),
            ));
            lemma_with_header(before, AUTHORIZATION@, token_value(new_token@));
        }
        http_headers.push((name, token_val));
        Ok(
            CKConfig {
                http: Some(CKConfigHttp { endpoint: Some(http_endpoint), headers: Some(http_headers) }),
            },
        )
    }
}

/// The configuration written where none exists yet: the service's own
/// endpoint, and no headers.
pub fn create_empty_config() -> (config: CKConfig)
    ensures
        endpoint_of(config) == Some(CK_ENDPOINT@),
        config.http is Some,
        !names_headers(config),
        config.is_well_formed(),
{
    CKConfig { http: Some(CKConfigHttp { endpoint: Some(CK_ENDPOINT.to_owned()), headers: None }) }
}

} // verus!
