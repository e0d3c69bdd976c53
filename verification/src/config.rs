//! How a handler is set up.
use vstd::hash_map::StringHashMap;
use vstd::prelude::*;
use vstd::utf8::*;

use crate::outside;
use crate::outside::to_lowercase;
use crate::text;
use crate::text::before;

verus! {

/// How the body of a response is encoded.
#[derive(Clone, Copy, Debug, PartialEq, Eq, Structural)]
pub enum ResponseType {
    /// As text where the body is UTF-8, otherwise as binary data.
    Auto,
    /// Always as text. A body that is not UTF-8 is an error.
    Text,
    /// Always as binary data.
    Binary,
}

/// What is done with the base path of an API, which its requests have in front
/// of the path that the API knows.
#[derive(Clone, Copy, Debug, PartialEq, Eq, Structural)]
pub enum BasePathBehaviour {
    /// The request is handed on with its base path.
    Include,
    /// The request is handed on with its base path, and the routes are mounted
    /// there once more.
    RemountAndInclude,
    /// The request is handed on without its base path.
    Exclude,
}

/// The configuration of a handler.
pub struct Config {
    /// The response type of every content type that has none of its own.
    pub default_response_type: ResponseType,
    /// The response types of single content types, in lower case.
    pub response_types: StringHashMap<ResponseType>,
    /// What is done with the base path.
    pub base_path_behaviour: BasePathBehaviour,
}

impl Config {
    /// The key under which the response type of a content type is kept: its
    /// part before the first semicolon, in lower case.
    pub open spec fn key(content_type: Seq<char>) -> Seq<char> {
        outside::lowercase(text::prefix_before(content_type, ';'))
    }

    /// The response type of a content type.
    pub open spec fn response_type_of(self, content_type: Seq<char>) -> ResponseType {
        if self.response_types@.contains_key(Self::key(content_type)) {
            self.response_types@[Self::key(content_type)]
        } else {
            self.default_response_type
        }
    }

    /// A configuration by which every response is encoded automatically.
    pub fn new(base_path_behaviour: BasePathBehaviour) -> (config: Config)
        ensures
            config.default_response_type == ResponseType::Auto,
            config.response_types@ == Map::<Seq<char>, ResponseType>::empty(),
            config.base_path_behaviour == base_path_behaviour,
    {
        Config {
            default_response_type: ResponseType::Auto,
            response_types: StringHashMap::new(),
            base_path_behaviour,
        }
    }

    /// Sets the response type of every content type that has none of its own.
    pub fn default_response_type(self, response_type: ResponseType) -> (config: Config)
        ensures
            config.default_response_type == response_type,
            config.response_types@ == self.response_types@,
            config.base_path_behaviour == self.base_path_behaviour,
    {
        Config {
            default_response_type: response_type,
            response_types: self.response_types,
            base_path_behaviour: self.base_path_behaviour,
        }
    }

    /// Sets the response type of one content type, whatever the case of its
    /// letters.
    pub fn response_type(self, content_type: &str, response_type: ResponseType) -> (config: Config)
        ensures
            config.default_response_type == self.default_response_type,
            config.response_types@ == self.response_types@.insert(
                outside::lowercase(content_type@),
                response_type,
            ),
            config.base_path_behaviour == self.base_path_behaviour,
    {
        let mut response_types = self.response_types;
        response_types.insert(to_lowercase(content_type), response_type);
        Config {
            default_response_type: self.default_response_type,
            response_types,
            base_path_behaviour: self.base_path_behaviour,
        }
    }

    /// Returns the response type for the value of a `content-type` header. What
    /// follows its first semicolon and the case of its letters do not matter.
    pub fn find_response_type(&self, content_type: &str) -> (response_type: ResponseType)
        ensures
            response_type == self.response_type_of(content_type@),
            ({
                let name = outside::lowercase(text::prefix_before(content_type@, ';'));
                response_type == if self.response_types@.contains_key(name) {
                    self.response_types@[name]
                } else {
                    self.default_response_type
                }
            }),
    {
        let key = to_lowercase(before(content_type, ';'));
        match self.response_types.get(key.as_str()) {
            Some(response_type) => *response_type,
            None => self.default_response_type,
        }
    }
}

/// What follows the first semicolon of a content type does not matter for its
/// response type, nor does the case of its letters.
pub proof fn law_parameters_and_case_do_not_matter(config: Config, a: Seq<char>, b: Seq<char>)
    requires
        text::prefix_before(a, ';') == text::prefix_before(b, ';') || (is_ascii_chars(
            text::prefix_before(a, ';'),
        ) && is_ascii_chars(text::prefix_before(b, ';')) && text::same_uncased(
            text::prefix_before(a, ';'),
            text::prefix_before(b, ';'),
        )),
    ensures
        config.response_type_of(a) == config.response_type_of(b),
{
    let x = text::prefix_before(a, ';');
    let y = text::prefix_before(b, ';');
    if x != y {
        assert(text::ascii_lowercase(x) =~= text::ascii_lowercase(y));
    }
}

/// The response type that was set last for a content type is found again, with
/// whatever parameters and in whatever case the content type then comes; every
/// other content type keeps its own.
pub proof fn law_set_response_type_is_found(
    config: Config,
    next: Config,
    set: Seq<char>,
    response_type: ResponseType,
    content_type: Seq<char>,
)
    requires
        next.default_response_type == config.default_response_type,
        next.response_types@ == config.response_types@.insert(
            outside::lowercase(set),
            response_type,
        ),
    ensures
        next.response_type_of(content_type) == if Config::key(content_type) == outside::lowercase(
            set,
        ) {
            response_type
        } else {
            config.response_type_of(content_type)
        },
{
}

/// Setting the response type of a content type decides what is found for the
/// content types that are the same in lower case, with whatever parameters
/// behind a semicolon, and for no others.
///
/// `bare` is any content type without parameters, and `parameters` is any text.
pub proof fn law_setting_decides_what_is_found(
    config: Config,
    next: Config,
    set: Seq<char>,
    response_type: ResponseType,
    bare: Seq<char>,
    parameters: Seq<char>,
)
    requires
        next.default_response_type == config.default_response_type,
        next.response_types@ == config.response_types@.insert(
            outside::lowercase(set),
            response_type,
        ),
        !bare.contains(';'),
    ensures
        bare == set ==> next.response_type_of(bare) == response_type,
        bare == set ==> next.response_type_of(bare + seq![';'] + parameters) == response_type,
        outside::lowercase(bare) == outside::lowercase(set) ==> {
            &&& next.response_type_of(bare) == response_type
            &&& next.response_type_of(bare + seq![';'] + parameters) == response_type
        },
        outside::lowercase(bare) != outside::lowercase(set) ==> {
            &&& next.response_type_of(bare) == config.response_type_of(bare)
            &&& next.response_type_of(bare + seq![';'] + parameters) == config.response_type_of(
                bare + seq![';'] + parameters,
            )
        },
{
    text::law_cut_at_the_first(bare, ';', parameters);
}

/// Where no response type was set, every content type has the default, and
/// setting another default changes nothing else: what was set for a content
/// type is still found.
pub proof fn law_default_is_for_the_rest(config: Config, next: Config, content_type: Seq<char>)
    requires
        next.response_types@ == config.response_types@,
    ensures
        config.response_types@ == Map::<Seq<char>, ResponseType>::empty()
            ==> config.response_type_of(content_type) == config.default_response_type,
        config.response_type_of(content_type) == next.response_type_of(content_type) || (
        config.response_type_of(content_type) == config.default_response_type
            && next.response_type_of(content_type) == next.default_response_type),
{
}

} // verus!
