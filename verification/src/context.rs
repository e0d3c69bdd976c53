//! The context of a request, which is handed on to Rocket as headers.
use serde_json::Value;
use vstd::prelude::*;

use crate::outside;
use crate::outside::json_text;
use crate::text;
use crate::text::{join, same_text};

verus! {

/// Who made a request that came through API Gateway.
pub struct Identity {
    pub cognito_identity_pool_id: Option<String>,
    pub account_id: Option<String>,
    pub cognito_identity_id: Option<String>,
    pub caller: Option<String>,
    pub api_key: Option<String>,
    pub access_key: Option<String>,
    pub source_ip: Option<String>,
    pub cognito_authentication_type: Option<String>,
    pub cognito_authentication_provider: Option<String>,
    pub user_arn: Option<String>,
    pub user_agent: Option<String>,
    pub user: Option<String>,
}

/// What API Gateway says of a request to a REST API.
pub struct ProxyContext {
    pub account_id: Option<String>,
    pub resource_id: Option<String>,
    pub stage: Option<String>,
    pub domain_name: Option<String>,
    pub domain_prefix: Option<String>,
    pub protocol: Option<String>,
    pub identity: Identity,
    pub resource_path: Option<String>,
    /// What the authorizer of the API returned, with each key once.
    pub authorizer: Vec<(String, Value)>,
    pub request_time: Option<String>,
    pub apiid: Option<String>,
}

/// What a load balancer says of a request.
pub struct AlbContext {
    pub target_group_arn: Option<String>,
}

/// Where a request came from.
pub enum RequestContext {
    /// A REST API of API Gateway.
    ApiGatewayV1(ProxyContext),
    /// An HTTP API of API Gateway.
    ApiGatewayV2,
    /// A load balancer.
    Alb(AlbContext),
}

/// A header that is sent where its value is known.
pub type Field = (Seq<char>, Option<Seq<char>>);

/// The headers of an identity.
pub open spec fn identity_fields(identity: Identity) -> Seq<Field> {
    seq![
        (
            "x-amz-req-ctx-id-cognito-identity-pool-id"@,
            text::optional_text(identity.cognito_identity_pool_id),
        ),
        ("x-amz-req-ctx-id-account-id"@, text::optional_text(identity.account_id)),
        ("x-amz-req-ctx-id-cognito-identity-id"@, text::optional_text(identity.cognito_identity_id)),
        ("x-amz-req-ctx-id-caller"@, text::optional_text(identity.caller)),
        ("x-amz-req-ctx-id-api-key"@, text::optional_text(identity.api_key)),
        ("x-amz-req-ctx-id-access-key"@, text::optional_text(identity.access_key)),
        ("x-amz-req-ctx-id-source-ip"@, text::optional_text(identity.source_ip)),
        (
            "x-amz-req-ctx-id-cognito-authentication-type"@,
            text::optional_text(identity.cognito_authentication_type),
        ),
        (
            "x-amz-req-ctx-id-cognito-authentication-provider"@,
            text::optional_text(identity.cognito_authentication_provider),
        ),
        ("x-amz-req-ctx-id-user-arn"@, text::optional_text(identity.user_arn)),
        ("x-amz-req-ctx-id-user-agent"@, text::optional_text(identity.user_agent)),
        ("x-amz-req-ctx-id-user"@, text::optional_text(identity.user)),
    ]
}

/// The headers of a context that come before those of its identity.
pub open spec fn leading_fields(ctx: ProxyContext) -> Seq<Field> {
    seq![
        ("x-amz-req-ctx-account-id"@, text::optional_text(ctx.account_id)),
        ("x-amz-req-ctx-resource-id"@, text::optional_text(ctx.resource_id)),
        ("x-amz-req-ctx-stage"@, text::optional_text(ctx.stage)),
        ("x-amz-req-ctx-domain-name"@, text::optional_text(ctx.domain_name)),
        ("x-amz-req-ctx-domain-prefix"@, text::optional_text(ctx.domain_prefix)),
        ("x-amz-req-ctx-protocol"@, text::optional_text(ctx.protocol)),
    ]
}

/// The headers of a context that come after those of its identity.
pub open spec fn trailing_fields(ctx: ProxyContext) -> Seq<Field> {
    seq![
        ("x-amz-req-ctx-resource-path"@, text::optional_text(ctx.resource_path)),
        ("x-amz-req-ctx-request-time"@, text::optional_text(ctx.request_time)),
        ("x-amz-req-ctx-apiid"@, text::optional_text(ctx.apiid)),
    ]
}

/// What an authorizer returned, with each value as JSON text.
pub open spec fn authorizer_texts(authorizer: Seq<(String, Value)>) -> Seq<
    (Seq<char>, Seq<char>),
> {
    authorizer.map_values(
        |entry: (String, Value)| (entry.0@, outside::json_document(entry.1)),
    )
}

/// The headers of what an authorizer returned.
pub open spec fn authorizer_fields(authorizer: Seq<(Seq<char>, Seq<char>)>) -> Seq<Field> {
    authorizer.map_values(
        |entry: (Seq<char>, Seq<char>)| ("x-amz-req-ctx-auth-"@ + entry.0, Some(entry.1)),
    )
}

/// All the headers of a context of API Gateway.
pub open spec fn proxy_fields(ctx: ProxyContext) -> Seq<Field> {
    leading_fields(ctx) + identity_fields(ctx.identity) + trailing_fields(ctx) + authorizer_fields(
        authorizer_texts(ctx.authorizer@),
    )
}

/// All the headers of a context.
pub open spec fn context_fields(ctx: RequestContext) -> Seq<Field> {
    match ctx {
        RequestContext::ApiGatewayV1(ctx) => proxy_fields(ctx),
        RequestContext::ApiGatewayV2 => Seq::empty(),
        RequestContext::Alb(ctx) => seq![
            ("x-amz-req-ctx-target-group-arn"@, text::optional_text(ctx.target_group_arn)),
        ],
    }
}

/// Headers by their names.
pub type Headers = Map<Seq<char>, Seq<char>>;

/// `headers` with those of `fields` whose values are known. Of two under one
/// name, the later one stays.
pub open spec fn with_fields(headers: Headers, fields: Seq<Field>) -> Headers
    decreases fields.len(),
{
    if fields.len() == 0 {
        headers
    } else {
        let front = with_fields(headers, fields.drop_last());
        match fields.last().1 {
            Some(value) => front.insert(fields.last().0, value),
            None => front,
        }
    }
}

/// Whether a list has no name twice.
pub open spec fn unique_names(entries: Seq<(Seq<char>, Seq<char>)>) -> bool {
    forall|i: int, j: int|
        0 <= i < j < entries.len() ==> (#[trigger] entries[i]).0 != (#[trigger] entries[j]).0
}

/// Whether `entries` lists `headers`, each once, in some order.
pub open spec fn is_listing(entries: Seq<(Seq<char>, Seq<char>)>, headers: Headers) -> bool {
    &&& unique_names(entries)
    &&& forall|i: int|
        0 <= i < entries.len() ==> headers.contains_key((#[trigger] entries[i]).0)
            && headers[entries[i].0] == entries[i].1
    &&& forall|name: Seq<char>| #[trigger]
        headers.contains_key(name) ==> exists|i: int|
            0 <= i < entries.len() && (#[trigger] entries[i]).0 == name
}

proof fn lemma_listing_update(
    entries: Seq<(Seq<char>, Seq<char>)>,
    headers: Headers,
    i: int,
    value: Seq<char>,
)
    requires
        is_listing(entries, headers),
        0 <= i < entries.len(),
    ensures
        is_listing(
            entries.update(i, (entries[i].0, value)),
            headers.insert(entries[i].0, value),
        ),
{
    let next = entries.update(i, (entries[i].0, value));
    assert forall|j: int| 0 <= j < entries.len() implies (#[trigger] next[j]).0 == entries[j].0 by {}
    assert forall|name: Seq<char>| #[trigger]
        headers.insert(entries[i].0, value).contains_key(name) implies exists|j: int|
        0 <= j < next.len() && (#[trigger] next[j]).0 == name by {
        if name == entries[i].0 {
            assert(next[i].0 == name);
        } else {
            let j = choose|j: int| 0 <= j < entries.len() && (#[trigger] entries[j]).0 == name;
            assert(next[j].0 == name);
        }
    }
}

proof fn lemma_listing_push(
    entries: Seq<(Seq<char>, Seq<char>)>,
    headers: Headers,
    name: Seq<char>,
    value: Seq<char>,
)
    requires
        is_listing(entries, headers),
        forall|j: int| 0 <= j < entries.len() ==> (#[trigger] entries[j]).0 != name,
    ensures
        is_listing(entries.push((name, value)), headers.insert(name, value)),
{
    let next = entries.push((name, value));
    assert forall|j: int| 0 <= j < entries.len() implies #[trigger] next[j] == entries[j] by {}
    assert forall|other: Seq<char>| #[trigger]
        headers.insert(name, value).contains_key(other) implies exists|j: int|
        0 <= j < next.len() && (#[trigger] next[j]).0 == other by {
        if other == name {
            assert(next[entries.len() as int].0 == name);
        } else {
            let j = choose|j: int| 0 <= j < entries.len() && (#[trigger] entries[j]).0 == other;
            assert(next[j].0 == other);
        }
    }
}

/// A set of headers, with one value for each name.
pub struct ContextHeaders {
    entries: Vec<(String, String)>,
    headers: Ghost<Headers>,
}

impl View for ContextHeaders {
    type V = Headers;

    closed spec fn view(&self) -> Headers {
        self.headers@
    }
}

impl ContextHeaders {
    /// Whether the entries are those of the view.
    pub closed spec fn wf(&self) -> bool {
        is_listing(text::pair_texts(self.entries@), self@)
    }

    /// Returns the empty set of headers.
    pub fn new() -> (headers: ContextHeaders)
        ensures
            headers.wf(),
            headers@ == Headers::empty(),
    {
        ContextHeaders { entries: Vec::new(), headers: Ghost(Map::empty()) }
    }

    /// Sets the value of a header.
    pub fn insert(&mut self, name: &str, value: String)
        requires
            old(self).wf(),
        ensures
            final(self).wf(),
            final(self)@ == old(self)@.insert(name@, value@),
    {
        let ghost before = text::pair_texts(self.entries@);
        let ghost headers = self.headers@;
        let len: usize = self.entries.len();
        let mut i: usize = 0;
        while i < len && !same_text(self.entries[i].0.as_str(), name)
            invariant
                i <= len,
                len == self.entries@.len(),
                before == text::pair_texts(self.entries@),
                headers == self.headers@,
                forall|j: int| 0 <= j < i ==> (#[trigger] before[j]).0 != name@,
            decreases len - i,
        {
            i = i + 1;
        }
        let entry = (name.to_owned(), value);
        let ghost pair = (entry.0@, entry.1@);
        if i < len {
            self.entries.set(i, entry);
            proof {
                assert(before[i as int].0 == name@);
                assert(text::pair_texts(self.entries@) =~= before.update(i as int, pair));
                lemma_listing_update(before, headers, i as int, value@);
            }
        } else {
            self.entries.push(entry);
            proof {
                assert(text::pair_texts(self.entries@) =~= before.push(pair));
                lemma_listing_push(before, headers, name@, value@);
            }
        }
        self.headers = Ghost(headers.insert(name@, value@));
    }

    /// Sets the headers among `fields` whose values are known.
    fn insert_fields(&mut self, fields: Vec<(&str, Option<String>)>)
        requires
            old(self).wf(),
        ensures
            final(self).wf(),
            final(self)@ == with_fields(old(self)@, field_texts(fields@)),
    {
        let ghost all = field_texts(fields@);
        let ghost before = self@;
        let ghost mut done: int = 0;
        let mut rest = fields;
        proof {
            assert(all.take(0) =~= Seq::empty());
            assert(all.skip(0) =~= all);
        }
        while rest.len() > 0
            invariant
                0 <= done <= all.len(),
                field_texts(rest@) == all.skip(done),
                self.wf(),
                self@ == with_fields(before, all.take(done)),
            decreases rest@.len(),
        {
            proof {
                assert(all.skip(done).len() == rest@.len());
                assert(field_texts(rest@)[0] == all.skip(done)[0]);
                assert(field_texts(rest@.remove(0)) =~= field_texts(rest@).skip(1));
                assert(all.skip(done).skip(1) =~= all.skip(done + 1));
                assert(all.take(done + 1).drop_last() =~= all.take(done));
            }
            let (name, value) = rest.remove(0);
            match value {
                Some(value) => self.insert(name, value),
                None => {},
            }
            proof {
                done = done + 1;
            }
        }
        proof {
            assert(field_texts(rest@).len() == 0);
            assert(all.take(done) =~= all);
        }
    }

    /// Returns the headers as a list, in some order.
    pub fn into_entries(self) -> (entries: Vec<(String, String)>)
        requires
            self.wf(),
        ensures
            is_listing(text::pair_texts(entries@), self@),
            forall|i: int|
                0 <= i < entries@.len() ==> self@.contains_key((#[trigger] entries@[i]).0@)
                    && self@[entries@[i].0@] == entries@[i].1@,
            forall|i: int, j: int|
                0 <= i < j < entries@.len() ==> (#[trigger] entries@[i]).0@ != (
                #[trigger] entries@[j]).0@,
            forall|name: Seq<char>| #[trigger]
                self@.contains_key(name) ==> exists|i: int|
                    0 <= i < entries@.len() && (#[trigger] entries@[i]).0@ == name,
    {
        proof {
            let listed = text::pair_texts(self.entries@);
            assert forall|i: int| 0 <= i < self.entries@.len() implies (
            #[trigger] self.entries@[i]).0@ == listed[i].0 && self.entries@[i].1@
                == listed[i].1 by {}
            assert forall|name: Seq<char>| #[trigger] self@.contains_key(name) implies exists|
                i: int,
            | 0 <= i < self.entries@.len() && (#[trigger] self.entries@[i]).0@ == name by {
                let i = choose|i: int| 0 <= i < listed.len() && (#[trigger] listed[i]).0 == name;
                assert(self.entries@[i].0@ == name);
            }
        }
        self.entries
    }
}

/// The texts of names and values.
pub open spec fn field_texts(fields: Seq<(&str, Option<String>)>) -> Seq<Field> {
    fields.map_values(|field: (&str, Option<String>)| (field.0@, text::optional_text(field.1)))
}

/// Adding some fields and then others is adding them all.
proof fn lemma_with_fields_concat(headers: Headers, a: Seq<Field>, b: Seq<Field>)
    ensures
        with_fields(with_fields(headers, a), b) == with_fields(headers, a + b),
    decreases b.len(),
{
    if b.len() == 0 {
        assert(a + b =~= a);
    } else {
        lemma_with_fields_concat(headers, a, b.drop_last());
        assert((a + b).drop_last() =~= a + b.drop_last());
        assert((a + b).last() == b.last());
    }
}

/// Adds the headers of an identity.
pub fn add_identity_ctx_headers(headers: &mut ContextHeaders, identity: Identity)
    requires
        old(headers).wf(),
    ensures
        final(headers).wf(),
        final(headers)@ == with_fields(old(headers)@, identity_fields(identity)),
{
    let fields = vec![
        ("x-amz-req-ctx-id-cognito-identity-pool-id", identity.cognito_identity_pool_id),
        ("x-amz-req-ctx-id-account-id", identity.account_id),
        ("x-amz-req-ctx-id-cognito-identity-id", identity.cognito_identity_id),
        ("x-amz-req-ctx-id-caller", identity.caller),
        ("x-amz-req-ctx-id-api-key", identity.api_key),
        ("x-amz-req-ctx-id-access-key", identity.access_key),
        ("x-amz-req-ctx-id-source-ip", identity.source_ip),
        ("x-amz-req-ctx-id-cognito-authentication-type", identity.cognito_authentication_type),
        (
            "x-amz-req-ctx-id-cognito-authentication-provider",
            identity.cognito_authentication_provider,
        ),
        ("x-amz-req-ctx-id-user-arn", identity.user_arn),
        ("x-amz-req-ctx-id-user-agent", identity.user_agent),
        ("x-amz-req-ctx-id-user", identity.user),
    ];
    proof {
        assert(field_texts(fields@) =~= identity_fields(identity));
    }
    headers.insert_fields(fields);
}

/// Adds the headers of what an authorizer returned, with the values as JSON
/// text.
pub fn add_authorizer_headers(headers: &mut ContextHeaders, authorizer: Vec<(String, String)>)
    requires
        old(headers).wf(),
    ensures
        final(headers).wf(),
        final(headers)@ == with_fields(
            old(headers)@,
            authorizer_fields(text::pair_texts(authorizer@)),
        ),
        forall|i: int|
            0 <= i < authorizer@.len() && (forall|j: int|
                i < j < authorizer@.len() ==> (#[trigger] authorizer@[j]).0@
                    != authorizer@[i].0@) ==> final(headers)@.get(
                "x-amz-req-ctx-auth-"@ + (#[trigger] authorizer@[i]).0@,
            ) == Some(authorizer@[i].1@),
        forall|name: Seq<char>|
            (forall|i: int|
                0 <= i < authorizer@.len() ==> name != "x-amz-req-ctx-auth-"@ + (
                #[trigger] authorizer@[i]).0@) ==> #[trigger] final(headers)@.get(name) == old(
                headers,
            )@.get(name),
{
    let ghost before = headers@;
    let ghost all = authorizer_fields(text::pair_texts(authorizer@));
    let mut i: usize = 0;
    proof {
        assert(all.take(0) =~= Seq::empty());
    }
    while i < authorizer.len()
        invariant
            i <= authorizer@.len(),
            all == authorizer_fields(text::pair_texts(authorizer@)),
            headers.wf(),
            headers@ == with_fields(before, all.take(i as int)),
        decreases authorizer@.len() - i,
    {
        let name = join("x-amz-req-ctx-auth-", authorizer[i].0.as_str(), "");
        let value = authorizer[i].1.clone();
        proof {
            reveal_strlit("");
            assert(name@ =~= "x-amz-req-ctx-auth-"@ + authorizer@[i as int].0@);
            assert(all.take(i + 1).drop_last() =~= all.take(i as int));
            assert(all.take(i + 1).last() == (name@, Some(value@)));
        }
        headers.insert(name.as_str(), value);
        i = i + 1;
    }
    proof {
        assert(all.take(authorizer@.len() as int) =~= all);
        let prefix = "x-amz-req-ctx-auth-"@;
        assert forall|i: int| 0 <= i < all.len() implies (#[trigger] all[i]) == (
            prefix + authorizer@[i].0@,
            Some(authorizer@[i].1@),
        ) by {}
        assert forall|i: int|
            0 <= i < authorizer@.len() && (forall|j: int|
                i < j < authorizer@.len() ==> (#[trigger] authorizer@[j]).0@
                    != authorizer@[i].0@) implies headers@.get(
            prefix + (#[trigger] authorizer@[i]).0@,
        ) == Some(authorizer@[i].1@) by {
            assert forall|j: int| i < j < all.len() implies (#[trigger] all[j]).0 != all[i].0 by {
                let a = authorizer@[i].0@;
                let b = authorizer@[j].0@;
                assert((prefix + a).skip(prefix.len() as int) =~= a);
                assert((prefix + b).skip(prefix.len() as int) =~= b);
            }
            lemma_last_field_decides(before, all, i);
        }
        assert forall|name: Seq<char>|
            (forall|i: int|
                0 <= i < authorizer@.len() ==> name != prefix + (
                #[trigger] authorizer@[i]).0@) implies #[trigger] headers@.get(name)
            == before.get(name) by {
            assert forall|i: int| 0 <= i < all.len() implies (#[trigger] all[i]).0 != name by {
                assert(authorizer@[i].0@ == authorizer@[i].0@);
            }
            lemma_other_names_stay(before, all, name);
        }
    }
}

/// Returns what an authorizer returned, with each value as JSON text.
fn write_authorizer(authorizer: &Vec<(String, Value)>) -> (written: Vec<(String, String)>)
    ensures
        text::pair_texts(written@) == authorizer_texts(authorizer@),
{
    let mut written: Vec<(String, String)> = Vec::new();
    let mut i: usize = 0;
    while i < authorizer.len()
        invariant
            i <= authorizer@.len(),
            text::pair_texts(written@) == authorizer_texts(authorizer@).take(i as int),
        decreases authorizer@.len() - i,
    {
        let ghost before = written@;
        let ghost all = authorizer_texts(authorizer@);
        written.push((authorizer[i].0.clone(), json_text(&authorizer[i].1)));
        proof {
            assert(text::pair_texts(written@) =~= text::pair_texts(before).push(all[i as int]));
            assert(all.take(i + 1) =~= all.take(i as int).push(all[i as int]));
        }
        i = i + 1;
    }
    proof {
        assert(authorizer_texts(authorizer@).take(authorizer@.len() as int) =~= authorizer_texts(
            authorizer@,
        ));
    }
    written
}

/// Adds the headers of a context of API Gateway.
pub fn add_api_gw_v1_headers(ctx: ProxyContext, headers: &mut ContextHeaders)
    requires
        old(headers).wf(),
    ensures
        final(headers).wf(),
        final(headers)@ == with_fields(old(headers)@, proxy_fields(ctx)),
{
    let ghost before = headers@;
    let leading = vec![
        ("x-amz-req-ctx-account-id", ctx.account_id),
        ("x-amz-req-ctx-resource-id", ctx.resource_id),
        ("x-amz-req-ctx-stage", ctx.stage),
        ("x-amz-req-ctx-domain-name", ctx.domain_name),
        ("x-amz-req-ctx-domain-prefix", ctx.domain_prefix),
        ("x-amz-req-ctx-protocol", ctx.protocol),
    ];
    let trailing = vec![
        ("x-amz-req-ctx-resource-path", ctx.resource_path),
        ("x-amz-req-ctx-request-time", ctx.request_time),
        ("x-amz-req-ctx-apiid", ctx.apiid),
    ];
    proof {
        let a = leading_fields(ctx);
        let b = identity_fields(ctx.identity);
        let c = trailing_fields(ctx);
        let d = authorizer_fields(authorizer_texts(ctx.authorizer@));
        assert(field_texts(leading@) =~= a);
        assert(field_texts(trailing@) =~= c);
        lemma_with_fields_concat(before, a, b);
        lemma_with_fields_concat(before, a + b, c);
        lemma_with_fields_concat(before, a + b + c, d);
    }
    headers.insert_fields(leading);
    add_identity_ctx_headers(headers, ctx.identity);
    headers.insert_fields(trailing);
    add_authorizer_headers(headers, write_authorizer(&ctx.authorizer));
}

/// Returns the headers of a context.
pub fn map_request_context_to_headers(ctx: RequestContext) -> (headers: ContextHeaders)
    ensures
        headers.wf(),
        headers@ == with_fields(Headers::empty(), context_fields(ctx)),
{
    let mut headers = ContextHeaders::new();
    match ctx {
        RequestContext::ApiGatewayV1(ctx) => {
            add_api_gw_v1_headers(ctx, &mut headers);
        },
        RequestContext::ApiGatewayV2 => {},
        RequestContext::Alb(ctx) => {
            let fields = vec![("x-amz-req-ctx-target-group-arn", ctx.target_group_arn)];
            proof {
                assert(field_texts(fields@) =~= context_fields(RequestContext::Alb(ctx)));
            }
            headers.insert_fields(fields);
        },
    }
    headers
}

/// Whether no two fields have one name.
pub open spec fn unique_field_names(fields: Seq<Field>) -> bool {
    forall|i: int, j: int|
        0 <= i < j < fields.len() ==> (#[trigger] fields[i]).0 != (#[trigger] fields[j]).0
}

/// Whether an authorizer returned no key twice.
pub open spec fn unique_keys(authorizer: Seq<(String, Value)>) -> bool {
    forall|i: int, j: int|
        0 <= i < j < authorizer.len() ==> (#[trigger] authorizer[i]).0@
            != (#[trigger] authorizer[j]).0@
}

impl RequestContext {
    /// Whether a context is one that a request can have: its authorizer
    /// returned no key twice.
    pub open spec fn wf(self) -> bool {
        self matches RequestContext::ApiGatewayV1(ctx) ==> unique_keys(ctx.authorizer@)
    }
}

/// Whether `headers` are those of `fields` whose values are known, and no
/// others.
pub open spec fn are_known_fields(headers: Headers, fields: Seq<Field>) -> bool {
    &&& forall|i: int|
        0 <= i < fields.len() ==> headers.contains_key((#[trigger] fields[i]).0)
            == fields[i].1 is Some
    &&& forall|i: int|
        0 <= i < fields.len() && (#[trigger] fields[i]).1 is Some ==> headers[fields[i].0]
            == fields[i].1->0
    &&& forall|name: Seq<char>| #[trigger]
        headers.contains_key(name) ==> exists|i: int|
            0 <= i < fields.len() && (#[trigger] fields[i]).0 == name
}

proof fn lemma_with_unique_fields(fields: Seq<Field>)
    requires
        unique_field_names(fields),
    ensures
        are_known_fields(with_fields(Headers::empty(), fields), fields),
    decreases fields.len(),
{
    if fields.len() > 0 {
        let front = fields.drop_last();
        let headers = with_fields(Headers::empty(), fields);
        let before = with_fields(Headers::empty(), front);
        let last = fields.last();
        assert(forall|i: int| 0 <= i < front.len() ==> #[trigger] front[i] == fields[i]);
        lemma_with_unique_fields(front);
        assert(!before.contains_key(last.0));
        assert forall|i: int| 0 <= i < fields.len() implies headers.contains_key(
            (#[trigger] fields[i]).0,
        ) == fields[i].1 is Some by {
            if i < front.len() {
                assert(front[i].0 != last.0);
            }
        }
        assert forall|i: int| 0 <= i < fields.len() && (#[trigger] fields[i]).1 is Some implies
            headers[fields[i].0] == fields[i].1->0 by {
            if i < front.len() {
                assert(front[i].0 != last.0);
            }
        }
        assert forall|name: Seq<char>| #[trigger] headers.contains_key(name) implies exists|i: int|
            0 <= i < fields.len() && (#[trigger] fields[i]).0 == name by {
            if name == last.0 {
                assert(fields[fields.len() - 1].0 == name);
            } else {
                assert(before.contains_key(name));
                let i = choose|i: int| 0 <= i < front.len() && (#[trigger] front[i]).0 == name;
                assert(fields[i].0 == name);
            }
        }
    }
}

/// The headers of a context of API Gateway that do not come from its
/// authorizer.
pub open spec fn fixed_fields(ctx: ProxyContext) -> Seq<Field> {
    leading_fields(ctx) + identity_fields(ctx.identity) + trailing_fields(ctx)
}

/// Whether `s` starts with `prefix`.
pub open spec fn has_prefix(s: Seq<char>, prefix: Seq<char>) -> bool {
    s.len() >= prefix.len() && s.take(prefix.len() as int) == prefix
}

/// A number that tells the names of the fixed fields apart.
spec fn name_code(name: Seq<char>) -> int {
    name.len() * 256 + (if name.len() == 19 {
        name[18] as int
    } else {
        name[20] as int
    })
}

/// Whether a name has the given code and the prefix of all context headers, but
/// not that of the authorizer's.
spec fn is_fixed_name(name: Seq<char>, code: int) -> bool {
    &&& name_code(name) == code
    &&& has_prefix(name, "x-amz-req-ctx-"@)
    &&& !has_prefix(name, "x-amz-req-ctx-auth-"@)
}

spec fn fixed_codes() -> Seq<int> {
    seq![
        6260, 6499, 4965, 6445, 6957, 5743, 10606,
        7023, 9326, 5996, 6189, 7013, 6770, 11374,
        12398, 6514, 7026, 5490, 7011, 6772, 4964,
    ]
}

proof fn lemma_is_fixed_name(name: Seq<char>, code: int)
    requires
        name.len() >= 19,
        name_code(name) == code,
        name.take(14) == seq!['x', '-', 'a', 'm', 'z', '-', 'r', 'e', 'q', '-', 'c', 't', 'x', '-'],
        name[14] != 'a' || name[15] != 'u',
    ensures
        is_fixed_name(name, code),
{
    reveal_strlit("x-amz-req-ctx-");
    reveal_strlit("x-amz-req-ctx-auth-");
    assert("x-amz-req-ctx-"@ =~= name.take(14));
    if has_prefix(name, "x-amz-req-ctx-auth-"@) {
        assert(name.take(19)[14] == 'a' && name.take(19)[15] == 'u');
    }
}

/// The names of the fixed fields and their codes.
proof fn lemma_name_codes()
    ensures
        is_fixed_name("x-amz-req-ctx-account-id"@, 6260),
        is_fixed_name("x-amz-req-ctx-resource-id"@, 6499),
        is_fixed_name("x-amz-req-ctx-stage"@, 4965),
        is_fixed_name("x-amz-req-ctx-domain-name"@, 6445),
        is_fixed_name("x-amz-req-ctx-domain-prefix"@, 6957),
        is_fixed_name("x-amz-req-ctx-protocol"@, 5743),
        is_fixed_name("x-amz-req-ctx-id-cognito-identity-pool-id"@, 10606),
        is_fixed_name("x-amz-req-ctx-id-account-id"@, 7023),
        is_fixed_name("x-amz-req-ctx-id-cognito-identity-id"@, 9326),
        is_fixed_name("x-amz-req-ctx-id-caller"@, 5996),
        is_fixed_name("x-amz-req-ctx-id-api-key"@, 6189),
        is_fixed_name("x-amz-req-ctx-id-access-key"@, 7013),
        is_fixed_name("x-amz-req-ctx-id-source-ip"@, 6770),
        is_fixed_name("x-amz-req-ctx-id-cognito-authentication-type"@, 11374),
        is_fixed_name("x-amz-req-ctx-id-cognito-authentication-provider"@, 12398),
        is_fixed_name("x-amz-req-ctx-id-user-arn"@, 6514),
        is_fixed_name("x-amz-req-ctx-id-user-agent"@, 7026),
        is_fixed_name("x-amz-req-ctx-id-user"@, 5490),
        is_fixed_name("x-amz-req-ctx-resource-path"@, 7011),
        is_fixed_name("x-amz-req-ctx-request-time"@, 6772),
        is_fixed_name("x-amz-req-ctx-apiid"@, 4964),
{
    let prefix = seq!['x', '-', 'a', 'm', 'z', '-', 'r', 'e', 'q', '-', 'c', 't', 'x', '-'];
    assert(is_fixed_name("x-amz-req-ctx-account-id"@, 6260)) by {
        reveal_strlit("x-amz-req-ctx-account-id");
        assert("x-amz-req-ctx-account-id"@.take(14) =~= prefix);
        lemma_is_fixed_name("x-amz-req-ctx-account-id"@, 6260);
    }
    assert(is_fixed_name("x-amz-req-ctx-resource-id"@, 6499)) by {
        reveal_strlit("x-amz-req-ctx-resource-id");
        assert("x-amz-req-ctx-resource-id"@.take(14) =~= prefix);
        lemma_is_fixed_name("x-amz-req-ctx-resource-id"@, 6499);
    }
    assert(is_fixed_name("x-amz-req-ctx-stage"@, 4965)) by {
        reveal_strlit("x-amz-req-ctx-stage");
        assert("x-amz-req-ctx-stage"@.take(14) =~= prefix);
        lemma_is_fixed_name("x-amz-req-ctx-stage"@, 4965);
    }
    assert(is_fixed_name("x-amz-req-ctx-domain-name"@, 6445)) by {
        reveal_strlit("x-amz-req-ctx-domain-name");
        assert("x-amz-req-ctx-domain-name"@.take(14) =~= prefix);
        lemma_is_fixed_name("x-amz-req-ctx-domain-name"@, 6445);
    }
    assert(is_fixed_name("x-amz-req-ctx-domain-prefix"@, 6957)) by {
        reveal_strlit("x-amz-req-ctx-domain-prefix");
        assert("x-amz-req-ctx-domain-prefix"@.take(14) =~= prefix);
        lemma_is_fixed_name("x-amz-req-ctx-domain-prefix"@, 6957);
    }
    assert(is_fixed_name("x-amz-req-ctx-protocol"@, 5743)) by {
        reveal_strlit("x-amz-req-ctx-protocol");
        assert("x-amz-req-ctx-protocol"@.take(14) =~= prefix);
        lemma_is_fixed_name("x-amz-req-ctx-protocol"@, 5743);
    }
    assert(is_fixed_name("x-amz-req-ctx-id-cognito-identity-pool-id"@, 10606)) by {
        reveal_strlit("x-amz-req-ctx-id-cognito-identity-pool-id");
        assert("x-amz-req-ctx-id-cognito-identity-pool-id"@.take(14) =~= prefix);
        lemma_is_fixed_name("x-amz-req-ctx-id-cognito-identity-pool-id"@, 10606);
    }
    assert(is_fixed_name("x-amz-req-ctx-id-account-id"@, 7023)) by {
        reveal_strlit("x-amz-req-ctx-id-account-id");
        assert("x-amz-req-ctx-id-account-id"@.take(14) =~= prefix);
        lemma_is_fixed_name("x-amz-req-ctx-id-account-id"@, 7023);
    }
    assert(is_fixed_name("x-amz-req-ctx-id-cognito-identity-id"@, 9326)) by {
        reveal_strlit("x-amz-req-ctx-id-cognito-identity-id");
        assert("x-amz-req-ctx-id-cognito-identity-id"@.take(14) =~= prefix);
        lemma_is_fixed_name("x-amz-req-ctx-id-cognito-identity-id"@, 9326);
    }
    assert(is_fixed_name("x-amz-req-ctx-id-caller"@, 5996)) by {
        reveal_strlit("x-amz-req-ctx-id-caller");
        assert("x-amz-req-ctx-id-caller"@.take(14) =~= prefix);
        lemma_is_fixed_name("x-amz-req-ctx-id-caller"@, 5996);
    }
    assert(is_fixed_name("x-amz-req-ctx-id-api-key"@, 6189)) by {
        reveal_strlit("x-amz-req-ctx-id-api-key");
        assert("x-amz-req-ctx-id-api-key"@.take(14) =~= prefix);
        lemma_is_fixed_name("x-amz-req-ctx-id-api-key"@, 6189);
    }
    assert(is_fixed_name("x-amz-req-ctx-id-access-key"@, 7013)) by {
        reveal_strlit("x-amz-req-ctx-id-access-key");
        assert("x-amz-req-ctx-id-access-key"@.take(14) =~= prefix);
        lemma_is_fixed_name("x-amz-req-ctx-id-access-key"@, 7013);
    }
    assert(is_fixed_name("x-amz-req-ctx-id-source-ip"@, 6770)) by {
        reveal_strlit("x-amz-req-ctx-id-source-ip");
        assert("x-amz-req-ctx-id-source-ip"@.take(14) =~= prefix);
        lemma_is_fixed_name("x-amz-req-ctx-id-source-ip"@, 6770);
    }
    assert(is_fixed_name("x-amz-req-ctx-id-cognito-authentication-type"@, 11374)) by {
        reveal_strlit("x-amz-req-ctx-id-cognito-authentication-type");
        assert("x-amz-req-ctx-id-cognito-authentication-type"@.take(14) =~= prefix);
        lemma_is_fixed_name("x-amz-req-ctx-id-cognito-authentication-type"@, 11374);
    }
    assert(is_fixed_name("x-amz-req-ctx-id-cognito-authentication-provider"@, 12398)) by {
        reveal_strlit("x-amz-req-ctx-id-cognito-authentication-provider");
        assert("x-amz-req-ctx-id-cognito-authentication-provider"@.take(14) =~= prefix);
        lemma_is_fixed_name("x-amz-req-ctx-id-cognito-authentication-provider"@, 12398);
    }
    assert(is_fixed_name("x-amz-req-ctx-id-user-arn"@, 6514)) by {
        reveal_strlit("x-amz-req-ctx-id-user-arn");
        assert("x-amz-req-ctx-id-user-arn"@.take(14) =~= prefix);
        lemma_is_fixed_name("x-amz-req-ctx-id-user-arn"@, 6514);
    }
    assert(is_fixed_name("x-amz-req-ctx-id-user-agent"@, 7026)) by {
        reveal_strlit("x-amz-req-ctx-id-user-agent");
        assert("x-amz-req-ctx-id-user-agent"@.take(14) =~= prefix);
        lemma_is_fixed_name("x-amz-req-ctx-id-user-agent"@, 7026);
    }
    assert(is_fixed_name("x-amz-req-ctx-id-user"@, 5490)) by {
        reveal_strlit("x-amz-req-ctx-id-user");
        assert("x-amz-req-ctx-id-user"@.take(14) =~= prefix);
        lemma_is_fixed_name("x-amz-req-ctx-id-user"@, 5490);
    }
    assert(is_fixed_name("x-amz-req-ctx-resource-path"@, 7011)) by {
        reveal_strlit("x-amz-req-ctx-resource-path");
        assert("x-amz-req-ctx-resource-path"@.take(14) =~= prefix);
        lemma_is_fixed_name("x-amz-req-ctx-resource-path"@, 7011);
    }
    assert(is_fixed_name("x-amz-req-ctx-request-time"@, 6772)) by {
        reveal_strlit("x-amz-req-ctx-request-time");
        assert("x-amz-req-ctx-request-time"@.take(14) =~= prefix);
        lemma_is_fixed_name("x-amz-req-ctx-request-time"@, 6772);
    }
    assert(is_fixed_name("x-amz-req-ctx-apiid"@, 4964)) by {
        reveal_strlit("x-amz-req-ctx-apiid");
        assert("x-amz-req-ctx-apiid"@.take(14) =~= prefix);
        lemma_is_fixed_name("x-amz-req-ctx-apiid"@, 4964);
    }
}

proof fn lemma_fixed_names(ctx: ProxyContext)
    ensures
        fixed_fields(ctx).len() == fixed_codes().len(),
        forall|i: int|
            0 <= i < fixed_codes().len() ==> is_fixed_name(
                (#[trigger] fixed_fields(ctx)[i]).0,
                fixed_codes()[i],
            ),
{
    lemma_name_codes();
}

proof fn lemma_proxy_names(ctx: ProxyContext)
    requires
        unique_keys(ctx.authorizer@),
    ensures
        unique_field_names(proxy_fields(ctx)),
        forall|i: int|
            0 <= i < proxy_fields(ctx).len() ==> has_prefix(
                (#[trigger] proxy_fields(ctx)[i]).0,
                "x-amz-req-ctx-"@,
            ),
{
    let fixed = fixed_fields(ctx);
    let auth = authorizer_fields(authorizer_texts(ctx.authorizer@));
    let all = proxy_fields(ctx);
    let prefix = "x-amz-req-ctx-auth-"@;
    lemma_fixed_names(ctx);
    assert(all =~= fixed + auth);
    assert(forall|i: int, j: int|
        0 <= i < j < fixed_codes().len() ==> fixed_codes()[i] != fixed_codes()[j]);
    assert forall|i: int| 0 <= i < auth.len() implies has_prefix(
        (#[trigger] auth[i]).0,
        prefix,
    ) && auth[i].0.skip(prefix.len() as int) == ctx.authorizer@[i].0@ && has_prefix(
        auth[i].0,
        "x-amz-req-ctx-"@,
    ) by {
        let key = ctx.authorizer@[i].0@;
        reveal_strlit("x-amz-req-ctx-");
        reveal_strlit("x-amz-req-ctx-auth-");
        assert(auth[i].0 == prefix + key);
        assert((prefix + key).take(prefix.len() as int) =~= prefix);
        assert((prefix + key).skip(prefix.len() as int) =~= key);
        assert((prefix + key).take(14) =~= "x-amz-req-ctx-"@);
    }
    assert forall|i: int, j: int| 0 <= i < j < all.len() implies (#[trigger] all[i]).0 != (
    #[trigger] all[j]).0 by {
        if j < fixed.len() {
            assert(all[i] == fixed[i] && all[j] == fixed[j]);
        } else if i < fixed.len() {
            assert(all[i] == fixed[i] && all[j] == auth[j - fixed.len()]);
        } else {
            assert(all[i] == auth[i - fixed.len()] && all[j] == auth[j - fixed.len()]);
            assert(ctx.authorizer@[i - fixed.len()].0@ != ctx.authorizer@[j - fixed.len()].0@);
        }
    }
    assert forall|i: int| 0 <= i < all.len() implies has_prefix(
        (#[trigger] all[i]).0,
        "x-amz-req-ctx-"@,
    ) by {
        if i < fixed.len() {
            assert(all[i] == fixed[i]);
        } else {
            assert(all[i] == auth[i - fixed.len()]);
        }
    }
}

/// The headers of a context are those of its fields that are known, each with
/// the value of its field, and no others.
pub proof fn law_headers_are_the_known_fields(ctx: RequestContext)
    requires
        ctx.wf(),
    ensures
        are_known_fields(with_fields(Headers::empty(), context_fields(ctx)), context_fields(ctx)),
{
    match ctx {
        RequestContext::ApiGatewayV1(ctx) => {
            lemma_proxy_names(ctx);
        },
        _ => {},
    }
    lemma_with_unique_fields(context_fields(ctx));
}

/// The name of every header of a context starts with `x-amz-req-ctx-`.
pub proof fn law_names_are_prefixed(ctx: RequestContext, name: Seq<char>)
    requires
        ctx.wf(),
        with_fields(Headers::empty(), context_fields(ctx)).contains_key(name),
    ensures
        has_prefix(name, "x-amz-req-ctx-"@),
{
    law_headers_are_the_known_fields(ctx);
    match ctx {
        RequestContext::ApiGatewayV1(ctx) => {
            lemma_proxy_names(ctx);
        },
        RequestContext::ApiGatewayV2 => {},
        RequestContext::Alb(ctx) => {
            reveal_strlit("x-amz-req-ctx-");
            reveal_strlit("x-amz-req-ctx-target-group-arn");
            assert("x-amz-req-ctx-target-group-arn"@.take(14) =~= "x-amz-req-ctx-"@);
        },
    }
}

/// Fields with unique names give the same headers in whatever order they come.
proof fn lemma_field_order(a: Seq<Field>, b: Seq<Field>)
    requires
        unique_field_names(a),
        unique_field_names(b),
        forall|field: Field| #[trigger] a.contains(field) <==> b.contains(field),
    ensures
        with_fields(Headers::empty(), a) == with_fields(Headers::empty(), b),
{
    let x = with_fields(Headers::empty(), a);
    let y = with_fields(Headers::empty(), b);
    lemma_with_unique_fields(a);
    lemma_with_unique_fields(b);
    assert forall|name: Seq<char>|
        x.contains_key(name) == y.contains_key(name) && (#[trigger] x.contains_key(name) ==> x[name]
            == y[name]) by {
        if x.contains_key(name) {
            let i = choose|i: int| 0 <= i < a.len() && (#[trigger] a[i]).0 == name;
            assert(a.contains(a[i]));
            let j = choose|j: int| 0 <= j < b.len() && b[j] == a[i];
            assert(b[j].0 == name);
        }
        if y.contains_key(name) {
            let j = choose|j: int| 0 <= j < b.len() && (#[trigger] b[j]).0 == name;
            assert(b.contains(b[j]));
            assert(a.contains(b[j]));
            let i = choose|i: int| 0 <= i < a.len() && a[i] == b[j];
            assert(a[i].0 == name);
        }
    }
    assert(x =~= y);
}

/// Fields are added over what is there already.
proof fn lemma_with_fields_over(headers: Headers, fields: Seq<Field>)
    ensures
        with_fields(headers, fields) == headers.union_prefer_right(
            with_fields(Headers::empty(), fields),
        ),
    decreases fields.len(),
{
    if fields.len() > 0 {
        lemma_with_fields_over(headers, fields.drop_last());
    }
    assert(with_fields(headers, fields) =~= headers.union_prefer_right(
        with_fields(Headers::empty(), fields),
    ));
}

/// The order in which an authorizer's values come does not matter for the
/// headers, whatever headers they are added to.
pub proof fn law_authorizer_order_does_not_matter(
    headers: Headers,
    a: ProxyContext,
    b: ProxyContext,
)
    requires
        unique_keys(a.authorizer@),
        unique_keys(b.authorizer@),
        fixed_fields(a) == fixed_fields(b),
        forall|entry: (Seq<char>, Seq<char>)| #[trigger]
            authorizer_texts(a.authorizer@).contains(entry) <==> authorizer_texts(
                b.authorizer@,
            ).contains(entry),
    ensures
        with_fields(headers, proxy_fields(a)) == with_fields(headers, proxy_fields(b)),
{
    lemma_proxy_names(a);
    lemma_proxy_names(b);
    lemma_proxy_contains(a, b);
    lemma_proxy_contains(b, a);
    lemma_field_order(proxy_fields(a), proxy_fields(b));
    lemma_with_fields_over(headers, proxy_fields(a));
    lemma_with_fields_over(headers, proxy_fields(b));
}

/// The fields of `a` are among those of `b`, where the fixed ones and what the
/// authorizer returned are.
proof fn lemma_proxy_contains(a: ProxyContext, b: ProxyContext)
    requires
        fixed_fields(a) == fixed_fields(b),
        forall|entry: (Seq<char>, Seq<char>)| #[trigger]
            authorizer_texts(a.authorizer@).contains(entry) ==> authorizer_texts(
                b.authorizer@,
            ).contains(entry),
    ensures
        forall|field: Field| #[trigger]
            proxy_fields(a).contains(field) ==> proxy_fields(b).contains(field),
{
    let fixed = fixed_fields(a);
    let x = authorizer_texts(a.authorizer@);
    let y = authorizer_texts(b.authorizer@);
    assert(proxy_fields(a) =~= fixed + authorizer_fields(x));
    assert(proxy_fields(b) =~= fixed + authorizer_fields(y));
    assert forall|field: Field| #[trigger] proxy_fields(a).contains(field) implies proxy_fields(
        b,
    ).contains(field) by {
        let i = choose|i: int| 0 <= i < proxy_fields(a).len() && proxy_fields(a)[i] == field;
        if i < fixed.len() {
            assert(proxy_fields(b)[i] == field);
        } else {
            let entry = x[i - fixed.len()];
            assert(x.contains(entry));
            assert(y.contains(entry));
            let j = choose|j: int| 0 <= j < y.len() && y[j] == entry;
            assert(authorizer_fields(y)[j] == field);
            assert(proxy_fields(b)[fixed.len() + j] == field);
        }
    }
}

/// Whether a map has a key, and under it which value, is what looking it up
/// gives.
proof fn lemma_get(headers: Headers, name: Seq<char>)
    ensures
        headers.contains_key(name) <==> headers.get(name) is Some,
        headers.contains_key(name) ==> headers.get(name) == Some(headers[name]),
{
}

/// A name that no field has stays as it was.
proof fn lemma_other_names_stay(headers: Headers, fields: Seq<Field>, name: Seq<char>)
    requires
        forall|i: int| 0 <= i < fields.len() ==> (#[trigger] fields[i]).0 != name,
    ensures
        with_fields(headers, fields).get(name) == headers.get(name),
    decreases fields.len(),
{
    if fields.len() > 0 {
        let front = fields.drop_last();
        assert forall|i: int| 0 <= i < front.len() implies (#[trigger] front[i]).0 != name by {
            assert(front[i] == fields[i]);
        }
        lemma_other_names_stay(headers, front, name);
        assert(fields[fields.len() - 1].0 != name);
    }
}

/// The last field of a name decides on it where its value is known.
proof fn lemma_last_field_decides(headers: Headers, fields: Seq<Field>, i: int)
    requires
        0 <= i < fields.len(),
        fields[i].1 is Some,
        forall|j: int| i < j < fields.len() ==> (#[trigger] fields[j]).0 != fields[i].0,
    ensures
        with_fields(headers, fields).get(fields[i].0) == fields[i].1,
    decreases fields.len(),
{
    if i < fields.len() - 1 {
        let front = fields.drop_last();
        assert forall|j: int| i < j < front.len() implies (#[trigger] front[j]).0 != front[i].0 by {
            assert(front[j] == fields[j]);
        }
        lemma_last_field_decides(headers, front, i);
        assert(fields[fields.len() - 1].0 != fields[i].0);
    }
}

/// The only field of a name decides on it.
proof fn lemma_only_field_decides(headers: Headers, fields: Seq<Field>, i: int)
    requires
        0 <= i < fields.len(),
        forall|j: int|
            0 <= j < fields.len() && j != i ==> (#[trigger] fields[j]).0 != fields[i].0,
    ensures
        with_fields(headers, fields).get(fields[i].0) == match fields[i].1 {
            Some(value) => Some(value),
            None => headers.get(fields[i].0),
        },
    decreases fields.len(),
{
    let front = fields.drop_last();
    if i < fields.len() - 1 {
        assert forall|j: int| 0 <= j < front.len() && j != i implies (#[trigger] front[j]).0
            != front[i].0 by {
            assert(front[j] == fields[j]);
        }
        lemma_only_field_decides(headers, front, i);
        assert(fields[fields.len() - 1].0 != fields[i].0);
    } else {
        assert forall|j: int| 0 <= j < front.len() implies (#[trigger] front[j]).0
            != fields[i].0 by {
            assert(front[j] == fields[j]);
        }
        lemma_other_names_stay(headers, front, fields[i].0);
    }
}

/// Each fixed field of a context decides alone on the header of its name.
proof fn lemma_fixed_field_decides(headers: Headers, ctx: ProxyContext, i: int)
    requires
        0 <= i < fixed_fields(ctx).len(),
    ensures
        with_fields(headers, proxy_fields(ctx)).get(fixed_fields(ctx)[i].0) == match fixed_fields(
            ctx,
        )[i].1 {
            Some(value) => Some(value),
            None => headers.get(fixed_fields(ctx)[i].0),
        },
{
    let fixed = fixed_fields(ctx);
    let auth = authorizer_fields(authorizer_texts(ctx.authorizer@));
    let fields = proxy_fields(ctx);
    let prefix = "x-amz-req-ctx-auth-"@;
    lemma_fixed_names(ctx);
    assert(fields =~= fixed + auth);
    assert(fields[i] == fixed[i]);
    assert(forall|i: int, j: int|
        0 <= i < j < fixed_codes().len() ==> fixed_codes()[i] != fixed_codes()[j]);
    assert forall|j: int| 0 <= j < fields.len() && j != i implies (#[trigger] fields[j]).0
        != fields[i].0 by {
        if j < fixed.len() {
            assert(fields[j] == fixed[j]);
            assert(fixed_codes()[i] != fixed_codes()[j]);
        } else {
            let key = ctx.authorizer@[j - fixed.len()].0@;
            assert(fields[j] == auth[j - fixed.len()]);
            assert(fields[j].0 == prefix + key);
            assert((prefix + key).take(prefix.len() as int) =~= prefix);
        }
    }
    lemma_only_field_decides(headers, fields, i);
}

/// Of the entries under one key there is a last one.
proof fn lemma_some_key_is_last(authorizer: Seq<(String, Value)>, i: int)
    requires
        0 <= i < authorizer.len(),
    ensures
        exists|j: int|
            i <= j < authorizer.len() && (#[trigger] authorizer[j]).0@ == authorizer[i].0@ && (
            forall|k: int|
                j < k < authorizer.len() ==> (#[trigger] authorizer[k]).0@ != authorizer[j].0@),
    decreases authorizer.len() - i,
{
    if exists|k: int|
        i < k < authorizer.len() && (#[trigger] authorizer[k]).0@ == authorizer[i].0@ {
        let k = choose|k: int|
            i < k < authorizer.len() && (#[trigger] authorizer[k]).0@ == authorizer[i].0@;
        lemma_some_key_is_last(authorizer, k);
    } else {
        assert(authorizer[i].0@ == authorizer[i].0@);
    }
}

/// Each field of an identity decides alone on the header of its name, whatever
/// the other fields are: a field that is known sets the header to its text, and
/// one that is not leaves the header as it was. No other header changes.
pub proof fn law_identity_headers(before: Headers, identity: Identity, after: Headers)
    requires
        after == with_fields(before, identity_fields(identity)),
    ensures
        after.get("x-amz-req-ctx-id-cognito-identity-pool-id"@)
            == match identity.cognito_identity_pool_id {
            Some(value) => Some(value@),
            None => before.get("x-amz-req-ctx-id-cognito-identity-pool-id"@),
        },
        after.get("x-amz-req-ctx-id-account-id"@) == match identity.account_id {
            Some(value) => Some(value@),
            None => before.get("x-amz-req-ctx-id-account-id"@),
        },
        after.get("x-amz-req-ctx-id-cognito-identity-id"@) == match identity.cognito_identity_id {
            Some(value) => Some(value@),
            None => before.get("x-amz-req-ctx-id-cognito-identity-id"@),
        },
        after.get("x-amz-req-ctx-id-caller"@) == match identity.caller {
            Some(value) => Some(value@),
            None => before.get("x-amz-req-ctx-id-caller"@),
        },
        after.get("x-amz-req-ctx-id-api-key"@) == match identity.api_key {
            Some(value) => Some(value@),
            None => before.get("x-amz-req-ctx-id-api-key"@),
        },
        after.get("x-amz-req-ctx-id-access-key"@) == match identity.access_key {
            Some(value) => Some(value@),
            None => before.get("x-amz-req-ctx-id-access-key"@),
        },
        after.get("x-amz-req-ctx-id-source-ip"@) == match identity.source_ip {
            Some(value) => Some(value@),
            None => before.get("x-amz-req-ctx-id-source-ip"@),
        },
        after.get("x-amz-req-ctx-id-cognito-authentication-type"@)
            == match identity.cognito_authentication_type {
            Some(value) => Some(value@),
            None => before.get("x-amz-req-ctx-id-cognito-authentication-type"@),
        },
        after.get("x-amz-req-ctx-id-cognito-authentication-provider"@)
            == match identity.cognito_authentication_provider {
            Some(value) => Some(value@),
            None => before.get("x-amz-req-ctx-id-cognito-authentication-provider"@),
        },
        after.get("x-amz-req-ctx-id-user-arn"@) == match identity.user_arn {
            Some(value) => Some(value@),
            None => before.get("x-amz-req-ctx-id-user-arn"@),
        },
        after.get("x-amz-req-ctx-id-user-agent"@) == match identity.user_agent {
            Some(value) => Some(value@),
            None => before.get("x-amz-req-ctx-id-user-agent"@),
        },
        after.get("x-amz-req-ctx-id-user"@) == match identity.user {
            Some(value) => Some(value@),
            None => before.get("x-amz-req-ctx-id-user"@),
        },
        forall|name: Seq<char>|
            {
                &&& name != "x-amz-req-ctx-id-cognito-identity-pool-id"@
                &&& name != "x-amz-req-ctx-id-account-id"@
                &&& name != "x-amz-req-ctx-id-cognito-identity-id"@
                &&& name != "x-amz-req-ctx-id-caller"@
                &&& name != "x-amz-req-ctx-id-api-key"@
                &&& name != "x-amz-req-ctx-id-access-key"@
                &&& name != "x-amz-req-ctx-id-source-ip"@
                &&& name != "x-amz-req-ctx-id-cognito-authentication-type"@
                &&& name != "x-amz-req-ctx-id-cognito-authentication-provider"@
                &&& name != "x-amz-req-ctx-id-user-arn"@
                &&& name != "x-amz-req-ctx-id-user-agent"@
                &&& name != "x-amz-req-ctx-id-user"@
            } ==> #[trigger] after.get(name) == before.get(name),
{
    let fields = identity_fields(identity);
    lemma_name_codes();
    lemma_only_field_decides(before, fields, 0);
    lemma_only_field_decides(before, fields, 1);
    lemma_only_field_decides(before, fields, 2);
    lemma_only_field_decides(before, fields, 3);
    lemma_only_field_decides(before, fields, 4);
    lemma_only_field_decides(before, fields, 5);
    lemma_only_field_decides(before, fields, 6);
    lemma_only_field_decides(before, fields, 7);
    lemma_only_field_decides(before, fields, 8);
    lemma_only_field_decides(before, fields, 9);
    lemma_only_field_decides(before, fields, 10);
    lemma_only_field_decides(before, fields, 11);
    assert forall|name: Seq<char>|
        {
            &&& name != "x-amz-req-ctx-id-cognito-identity-pool-id"@
            &&& name != "x-amz-req-ctx-id-account-id"@
            &&& name != "x-amz-req-ctx-id-cognito-identity-id"@
            &&& name != "x-amz-req-ctx-id-caller"@
            &&& name != "x-amz-req-ctx-id-api-key"@
            &&& name != "x-amz-req-ctx-id-access-key"@
            &&& name != "x-amz-req-ctx-id-source-ip"@
            &&& name != "x-amz-req-ctx-id-cognito-authentication-type"@
            &&& name != "x-amz-req-ctx-id-cognito-authentication-provider"@
            &&& name != "x-amz-req-ctx-id-user-arn"@
            &&& name != "x-amz-req-ctx-id-user-agent"@
            &&& name != "x-amz-req-ctx-id-user"@
        } implies #[trigger] after.get(name) == before.get(name) by {
        lemma_other_names_stay(before, fields, name);
    }
}

/// Each field of a context of API Gateway, and each of its identity, decides
/// alone on the header of its name, whatever the other fields are: a field that
/// is known sets the header to its text, and one that is not leaves the header as
/// it was.
pub proof fn law_api_gateway_headers(before: Headers, ctx: ProxyContext, after: Headers)
    requires
        after == with_fields(before, proxy_fields(ctx)),
    ensures
        after.get("x-amz-req-ctx-account-id"@) == match ctx.account_id {
            Some(value) => Some(value@),
            None => before.get("x-amz-req-ctx-account-id"@),
        },
        after.get("x-amz-req-ctx-resource-id"@) == match ctx.resource_id {
            Some(value) => Some(value@),
            None => before.get("x-amz-req-ctx-resource-id"@),
        },
        after.get("x-amz-req-ctx-stage"@) == match ctx.stage {
            Some(value) => Some(value@),
            None => before.get("x-amz-req-ctx-stage"@),
        },
        after.get("x-amz-req-ctx-domain-name"@) == match ctx.domain_name {
            Some(value) => Some(value@),
            None => before.get("x-amz-req-ctx-domain-name"@),
        },
        after.get("x-amz-req-ctx-domain-prefix"@) == match ctx.domain_prefix {
            Some(value) => Some(value@),
            None => before.get("x-amz-req-ctx-domain-prefix"@),
        },
        after.get("x-amz-req-ctx-protocol"@) == match ctx.protocol {
            Some(value) => Some(value@),
            None => before.get("x-amz-req-ctx-protocol"@),
        },
        after.get("x-amz-req-ctx-id-cognito-identity-pool-id"@)
            == match ctx.identity.cognito_identity_pool_id {
            Some(value) => Some(value@),
            None => before.get("x-amz-req-ctx-id-cognito-identity-pool-id"@),
        },
        after.get("x-amz-req-ctx-id-account-id"@) == match ctx.identity.account_id {
            Some(value) => Some(value@),
            None => before.get("x-amz-req-ctx-id-account-id"@),
        },
        after.get("x-amz-req-ctx-id-cognito-identity-id"@)
            == match ctx.identity.cognito_identity_id {
            Some(value) => Some(value@),
            None => before.get("x-amz-req-ctx-id-cognito-identity-id"@),
        },
        after.get("x-amz-req-ctx-id-caller"@) == match ctx.identity.caller {
            Some(value) => Some(value@),
            None => before.get("x-amz-req-ctx-id-caller"@),
        },
        after.get("x-amz-req-ctx-id-api-key"@) == match ctx.identity.api_key {
            Some(value) => Some(value@),
            None => before.get("x-amz-req-ctx-id-api-key"@),
        },
        after.get("x-amz-req-ctx-id-access-key"@) == match ctx.identity.access_key {
            Some(value) => Some(value@),
            None => before.get("x-amz-req-ctx-id-access-key"@),
        },
        after.get("x-amz-req-ctx-id-source-ip"@) == match ctx.identity.source_ip {
            Some(value) => Some(value@),
            None => before.get("x-amz-req-ctx-id-source-ip"@),
        },
        after.get("x-amz-req-ctx-id-cognito-authentication-type"@)
            == match ctx.identity.cognito_authentication_type {
            Some(value) => Some(value@),
            None => before.get("x-amz-req-ctx-id-cognito-authentication-type"@),
        },
        after.get("x-amz-req-ctx-id-cognito-authentication-provider"@)
            == match ctx.identity.cognito_authentication_provider {
            Some(value) => Some(value@),
            None => before.get("x-amz-req-ctx-id-cognito-authentication-provider"@),
        },
        after.get("x-amz-req-ctx-id-user-arn"@) == match ctx.identity.user_arn {
            Some(value) => Some(value@),
            None => before.get("x-amz-req-ctx-id-user-arn"@),
        },
        after.get("x-amz-req-ctx-id-user-agent"@) == match ctx.identity.user_agent {
            Some(value) => Some(value@),
            None => before.get("x-amz-req-ctx-id-user-agent"@),
        },
        after.get("x-amz-req-ctx-id-user"@) == match ctx.identity.user {
            Some(value) => Some(value@),
            None => before.get("x-amz-req-ctx-id-user"@),
        },
        after.get("x-amz-req-ctx-resource-path"@) == match ctx.resource_path {
            Some(value) => Some(value@),
            None => before.get("x-amz-req-ctx-resource-path"@),
        },
        after.get("x-amz-req-ctx-request-time"@) == match ctx.request_time {
            Some(value) => Some(value@),
            None => before.get("x-amz-req-ctx-request-time"@),
        },
        after.get("x-amz-req-ctx-apiid"@) == match ctx.apiid {
            Some(value) => Some(value@),
            None => before.get("x-amz-req-ctx-apiid"@),
        },
{
    assert(after.get("x-amz-req-ctx-account-id"@) == match ctx.account_id {
        Some(value) => Some(value@),
        None => before.get("x-amz-req-ctx-account-id"@),
    }) by {
        lemma_fixed_field_decides(before, ctx, 0);
        assert(fixed_fields(ctx)[0]
            == ("x-amz-req-ctx-account-id"@, text::optional_text(ctx.account_id)));
    }
    assert(after.get("x-amz-req-ctx-resource-id"@) == match ctx.resource_id {
        Some(value) => Some(value@),
        None => before.get("x-amz-req-ctx-resource-id"@),
    }) by {
        lemma_fixed_field_decides(before, ctx, 1);
        assert(fixed_fields(ctx)[1]
            == ("x-amz-req-ctx-resource-id"@, text::optional_text(ctx.resource_id)));
    }
    assert(after.get("x-amz-req-ctx-stage"@) == match ctx.stage {
        Some(value) => Some(value@),
        None => before.get("x-amz-req-ctx-stage"@),
    }) by {
        lemma_fixed_field_decides(before, ctx, 2);
        assert(fixed_fields(ctx)[2] == ("x-amz-req-ctx-stage"@, text::optional_text(ctx.stage)));
    }
    assert(after.get("x-amz-req-ctx-domain-name"@) == match ctx.domain_name {
        Some(value) => Some(value@),
        None => before.get("x-amz-req-ctx-domain-name"@),
    }) by {
        lemma_fixed_field_decides(before, ctx, 3);
        assert(fixed_fields(ctx)[3]
            == ("x-amz-req-ctx-domain-name"@, text::optional_text(ctx.domain_name)));
    }
    assert(after.get("x-amz-req-ctx-domain-prefix"@) == match ctx.domain_prefix {
        Some(value) => Some(value@),
        None => before.get("x-amz-req-ctx-domain-prefix"@),
    }) by {
        lemma_fixed_field_decides(before, ctx, 4);
        assert(fixed_fields(ctx)[4]
            == ("x-amz-req-ctx-domain-prefix"@, text::optional_text(ctx.domain_prefix)));
    }
    assert(after.get("x-amz-req-ctx-protocol"@) == match ctx.protocol {
        Some(value) => Some(value@),
        None => before.get("x-amz-req-ctx-protocol"@),
    }) by {
        lemma_fixed_field_decides(before, ctx, 5);
        assert(fixed_fields(ctx)[5]
            == ("x-amz-req-ctx-protocol"@, text::optional_text(ctx.protocol)));
    }
    assert(after.get("x-amz-req-ctx-id-cognito-identity-pool-id"@)
        == match ctx.identity.cognito_identity_pool_id {
        Some(value) => Some(value@),
        None => before.get("x-amz-req-ctx-id-cognito-identity-pool-id"@),
    }) by {
        lemma_fixed_field_decides(before, ctx, 6);
        assert(fixed_fields(ctx)[6]
            == ("x-amz-req-ctx-id-cognito-identity-pool-id"@,
            text::optional_text(ctx.identity.cognito_identity_pool_id)));
    }
    assert(after.get("x-amz-req-ctx-id-account-id"@) == match ctx.identity.account_id {
        Some(value) => Some(value@),
        None => before.get("x-amz-req-ctx-id-account-id"@),
    }) by {
        lemma_fixed_field_decides(before, ctx, 7);
        assert(fixed_fields(ctx)[7]
            == ("x-amz-req-ctx-id-account-id"@, text::optional_text(ctx.identity.account_id)));
    }
    assert(after.get("x-amz-req-ctx-id-cognito-identity-id"@)
        == match ctx.identity.cognito_identity_id {
        Some(value) => Some(value@),
        None => before.get("x-amz-req-ctx-id-cognito-identity-id"@),
    }) by {
        lemma_fixed_field_decides(before, ctx, 8);
        assert(fixed_fields(ctx)[8]
            == ("x-amz-req-ctx-id-cognito-identity-id"@,
            text::optional_text(ctx.identity.cognito_identity_id)));
    }
    assert(after.get("x-amz-req-ctx-id-caller"@) == match ctx.identity.caller {
        Some(value) => Some(value@),
        None => before.get("x-amz-req-ctx-id-caller"@),
    }) by {
        lemma_fixed_field_decides(before, ctx, 9);
        assert(fixed_fields(ctx)[9]
            == ("x-amz-req-ctx-id-caller"@, text::optional_text(ctx.identity.caller)));
    }
    assert(after.get("x-amz-req-ctx-id-api-key"@) == match ctx.identity.api_key {
        Some(value) => Some(value@),
        None => before.get("x-amz-req-ctx-id-api-key"@),
    }) by {
        lemma_fixed_field_decides(before, ctx, 10);
        assert(fixed_fields(ctx)[10]
            == ("x-amz-req-ctx-id-api-key"@, text::optional_text(ctx.identity.api_key)));
    }
    assert(after.get("x-amz-req-ctx-id-access-key"@) == match ctx.identity.access_key {
        Some(value) => Some(value@),
        None => before.get("x-amz-req-ctx-id-access-key"@),
    }) by {
        lemma_fixed_field_decides(before, ctx, 11);
        assert(fixed_fields(ctx)[11]
            == ("x-amz-req-ctx-id-access-key"@, text::optional_text(ctx.identity.access_key)));
    }
    assert(after.get("x-amz-req-ctx-id-source-ip"@) == match ctx.identity.source_ip {
        Some(value) => Some(value@),
        None => before.get("x-amz-req-ctx-id-source-ip"@),
    }) by {
        lemma_fixed_field_decides(before, ctx, 12);
        assert(fixed_fields(ctx)[12]
            == ("x-amz-req-ctx-id-source-ip"@, text::optional_text(ctx.identity.source_ip)));
    }
    assert(after.get("x-amz-req-ctx-id-cognito-authentication-type"@)
        == match ctx.identity.cognito_authentication_type {
        Some(value) => Some(value@),
        None => before.get("x-amz-req-ctx-id-cognito-authentication-type"@),
    }) by {
        lemma_fixed_field_decides(before, ctx, 13);
        assert(fixed_fields(ctx)[13]
            == ("x-amz-req-ctx-id-cognito-authentication-type"@,
            text::optional_text(ctx.identity.cognito_authentication_type)));
    }
    assert(after.get("x-amz-req-ctx-id-cognito-authentication-provider"@)
        == match ctx.identity.cognito_authentication_provider {
        Some(value) => Some(value@),
        None => before.get("x-amz-req-ctx-id-cognito-authentication-provider"@),
    }) by {
        lemma_fixed_field_decides(before, ctx, 14);
        assert(fixed_fields(ctx)[14]
            == ("x-amz-req-ctx-id-cognito-authentication-provider"@,
            text::optional_text(ctx.identity.cognito_authentication_provider)));
    }
    assert(after.get("x-amz-req-ctx-id-user-arn"@) == match ctx.identity.user_arn {
        Some(value) => Some(value@),
        None => before.get("x-amz-req-ctx-id-user-arn"@),
    }) by {
        lemma_fixed_field_decides(before, ctx, 15);
        assert(fixed_fields(ctx)[15]
            == ("x-amz-req-ctx-id-user-arn"@, text::optional_text(ctx.identity.user_arn)));
    }
    assert(after.get("x-amz-req-ctx-id-user-agent"@) == match ctx.identity.user_agent {
        Some(value) => Some(value@),
        None => before.get("x-amz-req-ctx-id-user-agent"@),
    }) by {
        lemma_fixed_field_decides(before, ctx, 16);
        assert(fixed_fields(ctx)[16]
            == ("x-amz-req-ctx-id-user-agent"@, text::optional_text(ctx.identity.user_agent)));
    }
    assert(after.get("x-amz-req-ctx-id-user"@) == match ctx.identity.user {
        Some(value) => Some(value@),
        None => before.get("x-amz-req-ctx-id-user"@),
    }) by {
        lemma_fixed_field_decides(before, ctx, 17);
        assert(fixed_fields(ctx)[17]
            == ("x-amz-req-ctx-id-user"@, text::optional_text(ctx.identity.user)));
    }
    assert(after.get("x-amz-req-ctx-resource-path"@) == match ctx.resource_path {
        Some(value) => Some(value@),
        None => before.get("x-amz-req-ctx-resource-path"@),
    }) by {
        lemma_fixed_field_decides(before, ctx, 18);
        assert(fixed_fields(ctx)[18]
            == ("x-amz-req-ctx-resource-path"@, text::optional_text(ctx.resource_path)));
    }
    assert(after.get("x-amz-req-ctx-request-time"@) == match ctx.request_time {
        Some(value) => Some(value@),
        None => before.get("x-amz-req-ctx-request-time"@),
    }) by {
        lemma_fixed_field_decides(before, ctx, 19);
        assert(fixed_fields(ctx)[19]
            == ("x-amz-req-ctx-request-time"@, text::optional_text(ctx.request_time)));
    }
    assert(after.get("x-amz-req-ctx-apiid"@) == match ctx.apiid {
        Some(value) => Some(value@),
        None => before.get("x-amz-req-ctx-apiid"@),
    }) by {
        lemma_fixed_field_decides(before, ctx, 20);
        assert(fixed_fields(ctx)[20] == ("x-amz-req-ctx-apiid"@, text::optional_text(ctx.apiid)));
    }
}

/// The value under each key that an authorizer returned is the JSON text of a
/// header of its own, the last one where there are several under one key, and no
/// header besides these and the fixed ones changes.
pub proof fn law_authorizer_headers(before: Headers, ctx: ProxyContext, after: Headers)
    requires
        after == with_fields(before, proxy_fields(ctx)),
    ensures
        forall|i: int|
            0 <= i < ctx.authorizer@.len() && (forall|j: int|
                i < j < ctx.authorizer@.len() ==> (#[trigger] ctx.authorizer@[j]).0@
                    != ctx.authorizer@[i].0@) ==> after.get(
                "x-amz-req-ctx-auth-"@ + (#[trigger] ctx.authorizer@[i]).0@,
            ) == Some(outside::json_document(ctx.authorizer@[i].1)),
        forall|name: Seq<char>|
            {
                &&& name != "x-amz-req-ctx-account-id"@
                &&& name != "x-amz-req-ctx-resource-id"@
                &&& name != "x-amz-req-ctx-stage"@
                &&& name != "x-amz-req-ctx-domain-name"@
                &&& name != "x-amz-req-ctx-domain-prefix"@
                &&& name != "x-amz-req-ctx-protocol"@
                &&& name != "x-amz-req-ctx-id-cognito-identity-pool-id"@
                &&& name != "x-amz-req-ctx-id-account-id"@
                &&& name != "x-amz-req-ctx-id-cognito-identity-id"@
                &&& name != "x-amz-req-ctx-id-caller"@
                &&& name != "x-amz-req-ctx-id-api-key"@
                &&& name != "x-amz-req-ctx-id-access-key"@
                &&& name != "x-amz-req-ctx-id-source-ip"@
                &&& name != "x-amz-req-ctx-id-cognito-authentication-type"@
                &&& name != "x-amz-req-ctx-id-cognito-authentication-provider"@
                &&& name != "x-amz-req-ctx-id-user-arn"@
                &&& name != "x-amz-req-ctx-id-user-agent"@
                &&& name != "x-amz-req-ctx-id-user"@
                &&& name != "x-amz-req-ctx-resource-path"@
                &&& name != "x-amz-req-ctx-request-time"@
                &&& name != "x-amz-req-ctx-apiid"@
                &&& forall|i: int|
                    0 <= i < ctx.authorizer@.len() ==> name != "x-amz-req-ctx-auth-"@ + (
                    #[trigger] ctx.authorizer@[i]).0@
            } ==> #[trigger] after.get(name) == before.get(name),
{
    let fixed = fixed_fields(ctx);
    let auth = authorizer_fields(authorizer_texts(ctx.authorizer@));
    let fields = proxy_fields(ctx);
    let prefix = "x-amz-req-ctx-auth-"@;
    assert(fields =~= fixed + auth);
    assert forall|i: int| 0 <= i < auth.len() implies #[trigger] auth[i] == (
        prefix + ctx.authorizer@[i].0@,
        Some(outside::json_document(ctx.authorizer@[i].1)),
    ) by {}
    assert forall|i: int|
        0 <= i < ctx.authorizer@.len() && (forall|j: int|
            i < j < ctx.authorizer@.len() ==> (#[trigger] ctx.authorizer@[j]).0@
                != ctx.authorizer@[i].0@) implies after.get(
        prefix + (#[trigger] ctx.authorizer@[i]).0@,
    ) == Some(outside::json_document(ctx.authorizer@[i].1)) by {
        let n = fixed.len() + i;
        assert(fields[n] == auth[i]);
        assert forall|m: int| n < m < fields.len() implies (#[trigger] fields[m]).0
            != fields[n].0 by {
            let j = m - fixed.len();
            assert(fields[m] == auth[j]);
            assert(ctx.authorizer@[j].0@ != ctx.authorizer@[i].0@);
            assert((prefix + ctx.authorizer@[j].0@).skip(prefix.len() as int)
                =~= ctx.authorizer@[j].0@);
            assert((prefix + ctx.authorizer@[i].0@).skip(prefix.len() as int)
                =~= ctx.authorizer@[i].0@);
        }
        lemma_last_field_decides(before, fields, n);
    }
    assert forall|name: Seq<char>|
        {
            &&& name != "x-amz-req-ctx-account-id"@
            &&& name != "x-amz-req-ctx-resource-id"@
            &&& name != "x-amz-req-ctx-stage"@
            &&& name != "x-amz-req-ctx-domain-name"@
            &&& name != "x-amz-req-ctx-domain-prefix"@
            &&& name != "x-amz-req-ctx-protocol"@
            &&& name != "x-amz-req-ctx-id-cognito-identity-pool-id"@
            &&& name != "x-amz-req-ctx-id-account-id"@
            &&& name != "x-amz-req-ctx-id-cognito-identity-id"@
            &&& name != "x-amz-req-ctx-id-caller"@
            &&& name != "x-amz-req-ctx-id-api-key"@
            &&& name != "x-amz-req-ctx-id-access-key"@
            &&& name != "x-amz-req-ctx-id-source-ip"@
            &&& name != "x-amz-req-ctx-id-cognito-authentication-type"@
            &&& name != "x-amz-req-ctx-id-cognito-authentication-provider"@
            &&& name != "x-amz-req-ctx-id-user-arn"@
            &&& name != "x-amz-req-ctx-id-user-agent"@
            &&& name != "x-amz-req-ctx-id-user"@
            &&& name != "x-amz-req-ctx-resource-path"@
            &&& name != "x-amz-req-ctx-request-time"@
            &&& name != "x-amz-req-ctx-apiid"@
            &&& forall|i: int|
                0 <= i < ctx.authorizer@.len() ==> name != prefix + (
                #[trigger] ctx.authorizer@[i]).0@
        } implies #[trigger] after.get(name) == before.get(name) by {
        assert forall|m: int| 0 <= m < fields.len() implies (#[trigger] fields[m]).0 != name by {
            if m < fixed.len() {
                assert(fields[m] == fixed[m]);
            } else {
                assert(fields[m] == auth[m - fixed.len()]);
                assert(ctx.authorizer@[m - fixed.len()].0@ == ctx.authorizer@[m
                    - fixed.len()].0@);
            }
        }
        lemma_other_names_stay(before, fields, name);
    }
}

/// The headers of a context of API Gateway: for each field of the context and of
/// its identity, the header of that name is there where that field is known, and
/// only there, and its value is the text of the field.
pub proof fn law_api_gateway_context(ctx: ProxyContext, headers: Headers)
    requires
        headers == with_fields(
            Headers::empty(),
            context_fields(RequestContext::ApiGatewayV1(ctx)),
        ),
    ensures
        headers.contains_key("x-amz-req-ctx-account-id"@) <==> ctx.account_id is Some,
        ctx.account_id matches Some(value) ==> headers["x-amz-req-ctx-account-id"@] == value@,
        headers.contains_key("x-amz-req-ctx-resource-id"@) <==> ctx.resource_id is Some,
        ctx.resource_id matches Some(value) ==> headers["x-amz-req-ctx-resource-id"@] == value@,
        headers.contains_key("x-amz-req-ctx-stage"@) <==> ctx.stage is Some,
        ctx.stage matches Some(value) ==> headers["x-amz-req-ctx-stage"@] == value@,
        headers.contains_key("x-amz-req-ctx-domain-name"@) <==> ctx.domain_name is Some,
        ctx.domain_name matches Some(value) ==> headers["x-amz-req-ctx-domain-name"@] == value@,
        headers.contains_key("x-amz-req-ctx-domain-prefix"@) <==> ctx.domain_prefix is Some,
        ctx.domain_prefix matches Some(value) ==> headers["x-amz-req-ctx-domain-prefix"@] == value@,
        headers.contains_key("x-amz-req-ctx-protocol"@) <==> ctx.protocol is Some,
        ctx.protocol matches Some(value) ==> headers["x-amz-req-ctx-protocol"@] == value@,
        headers.contains_key("x-amz-req-ctx-id-cognito-identity-pool-id"@)
            <==> ctx.identity.cognito_identity_pool_id is Some,
        ctx.identity.cognito_identity_pool_id matches Some(value)
            ==> headers["x-amz-req-ctx-id-cognito-identity-pool-id"@] == value@,
        headers.contains_key("x-amz-req-ctx-id-account-id"@) <==> ctx.identity.account_id is Some,
        ctx.identity.account_id matches Some(value)
            ==> headers["x-amz-req-ctx-id-account-id"@] == value@,
        headers.contains_key("x-amz-req-ctx-id-cognito-identity-id"@)
            <==> ctx.identity.cognito_identity_id is Some,
        ctx.identity.cognito_identity_id matches Some(value)
            ==> headers["x-amz-req-ctx-id-cognito-identity-id"@] == value@,
        headers.contains_key("x-amz-req-ctx-id-caller"@) <==> ctx.identity.caller is Some,
        ctx.identity.caller matches Some(value) ==> headers["x-amz-req-ctx-id-caller"@] == value@,
        headers.contains_key("x-amz-req-ctx-id-api-key"@) <==> ctx.identity.api_key is Some,
        ctx.identity.api_key matches Some(value) ==> headers["x-amz-req-ctx-id-api-key"@] == value@,
        headers.contains_key("x-amz-req-ctx-id-access-key"@) <==> ctx.identity.access_key is Some,
        ctx.identity.access_key matches Some(value)
            ==> headers["x-amz-req-ctx-id-access-key"@] == value@,
        headers.contains_key("x-amz-req-ctx-id-source-ip"@) <==> ctx.identity.source_ip is Some,
        ctx.identity.source_ip matches Some(value)
            ==> headers["x-amz-req-ctx-id-source-ip"@] == value@,
        headers.contains_key("x-amz-req-ctx-id-cognito-authentication-type"@)
            <==> ctx.identity.cognito_authentication_type is Some,
        ctx.identity.cognito_authentication_type matches Some(value)
            ==> headers["x-amz-req-ctx-id-cognito-authentication-type"@] == value@,
        headers.contains_key("x-amz-req-ctx-id-cognito-authentication-provider"@)
            <==> ctx.identity.cognito_authentication_provider is Some,
        ctx.identity.cognito_authentication_provider matches Some(value)
            ==> headers["x-amz-req-ctx-id-cognito-authentication-provider"@] == value@,
        headers.contains_key("x-amz-req-ctx-id-user-arn"@) <==> ctx.identity.user_arn is Some,
        ctx.identity.user_arn matches Some(value)
            ==> headers["x-amz-req-ctx-id-user-arn"@] == value@,
        headers.contains_key("x-amz-req-ctx-id-user-agent"@) <==> ctx.identity.user_agent is Some,
        ctx.identity.user_agent matches Some(value)
            ==> headers["x-amz-req-ctx-id-user-agent"@] == value@,
        headers.contains_key("x-amz-req-ctx-id-user"@) <==> ctx.identity.user is Some,
        ctx.identity.user matches Some(value) ==> headers["x-amz-req-ctx-id-user"@] == value@,
        headers.contains_key("x-amz-req-ctx-resource-path"@) <==> ctx.resource_path is Some,
        ctx.resource_path matches Some(value) ==> headers["x-amz-req-ctx-resource-path"@] == value@,
        headers.contains_key("x-amz-req-ctx-request-time"@) <==> ctx.request_time is Some,
        ctx.request_time matches Some(value) ==> headers["x-amz-req-ctx-request-time"@] == value@,
        headers.contains_key("x-amz-req-ctx-apiid"@) <==> ctx.apiid is Some,
        ctx.apiid matches Some(value) ==> headers["x-amz-req-ctx-apiid"@] == value@,
        forall|i: int|
            0 <= i < ctx.authorizer@.len() ==> headers.contains_key(
                "x-amz-req-ctx-auth-"@ + (#[trigger] ctx.authorizer@[i]).0@,
            ),
        forall|i: int|
            0 <= i < ctx.authorizer@.len() && (forall|j: int|
                i < j < ctx.authorizer@.len() ==> (#[trigger] ctx.authorizer@[j]).0@
                    != ctx.authorizer@[i].0@) ==> headers["x-amz-req-ctx-auth-"@ + (
            #[trigger] ctx.authorizer@[i]).0@] == outside::json_document(ctx.authorizer@[i].1),
        forall|name: Seq<char>| #[trigger]
            headers.contains_key(name) ==> {
                ||| name == "x-amz-req-ctx-account-id"@
                ||| name == "x-amz-req-ctx-resource-id"@
                ||| name == "x-amz-req-ctx-stage"@
                ||| name == "x-amz-req-ctx-domain-name"@
                ||| name == "x-amz-req-ctx-domain-prefix"@
                ||| name == "x-amz-req-ctx-protocol"@
                ||| name == "x-amz-req-ctx-id-cognito-identity-pool-id"@
                ||| name == "x-amz-req-ctx-id-account-id"@
                ||| name == "x-amz-req-ctx-id-cognito-identity-id"@
                ||| name == "x-amz-req-ctx-id-caller"@
                ||| name == "x-amz-req-ctx-id-api-key"@
                ||| name == "x-amz-req-ctx-id-access-key"@
                ||| name == "x-amz-req-ctx-id-source-ip"@
                ||| name == "x-amz-req-ctx-id-cognito-authentication-type"@
                ||| name == "x-amz-req-ctx-id-cognito-authentication-provider"@
                ||| name == "x-amz-req-ctx-id-user-arn"@
                ||| name == "x-amz-req-ctx-id-user-agent"@
                ||| name == "x-amz-req-ctx-id-user"@
                ||| name == "x-amz-req-ctx-resource-path"@
                ||| name == "x-amz-req-ctx-request-time"@
                ||| name == "x-amz-req-ctx-apiid"@
                ||| exists|i: int|
                    0 <= i < ctx.authorizer@.len() && name == "x-amz-req-ctx-auth-"@ + (
                    #[trigger] ctx.authorizer@[i]).0@
            },
{
    let before = Headers::empty();
    law_api_gateway_headers(before, ctx, headers);
    law_authorizer_headers(before, ctx, headers);
    lemma_get(headers, "x-amz-req-ctx-account-id"@);
    lemma_get(headers, "x-amz-req-ctx-resource-id"@);
    lemma_get(headers, "x-amz-req-ctx-stage"@);
    lemma_get(headers, "x-amz-req-ctx-domain-name"@);
    lemma_get(headers, "x-amz-req-ctx-domain-prefix"@);
    lemma_get(headers, "x-amz-req-ctx-protocol"@);
    lemma_get(headers, "x-amz-req-ctx-id-cognito-identity-pool-id"@);
    lemma_get(headers, "x-amz-req-ctx-id-account-id"@);
    lemma_get(headers, "x-amz-req-ctx-id-cognito-identity-id"@);
    lemma_get(headers, "x-amz-req-ctx-id-caller"@);
    lemma_get(headers, "x-amz-req-ctx-id-api-key"@);
    lemma_get(headers, "x-amz-req-ctx-id-access-key"@);
    lemma_get(headers, "x-amz-req-ctx-id-source-ip"@);
    lemma_get(headers, "x-amz-req-ctx-id-cognito-authentication-type"@);
    lemma_get(headers, "x-amz-req-ctx-id-cognito-authentication-provider"@);
    lemma_get(headers, "x-amz-req-ctx-id-user-arn"@);
    lemma_get(headers, "x-amz-req-ctx-id-user-agent"@);
    lemma_get(headers, "x-amz-req-ctx-id-user"@);
    lemma_get(headers, "x-amz-req-ctx-resource-path"@);
    lemma_get(headers, "x-amz-req-ctx-request-time"@);
    lemma_get(headers, "x-amz-req-ctx-apiid"@);
    assert forall|name: Seq<char>| #[trigger] headers.contains_key(name) implies {
        ||| name == "x-amz-req-ctx-account-id"@
        ||| name == "x-amz-req-ctx-resource-id"@
        ||| name == "x-amz-req-ctx-stage"@
        ||| name == "x-amz-req-ctx-domain-name"@
        ||| name == "x-amz-req-ctx-domain-prefix"@
        ||| name == "x-amz-req-ctx-protocol"@
        ||| name == "x-amz-req-ctx-id-cognito-identity-pool-id"@
        ||| name == "x-amz-req-ctx-id-account-id"@
        ||| name == "x-amz-req-ctx-id-cognito-identity-id"@
        ||| name == "x-amz-req-ctx-id-caller"@
        ||| name == "x-amz-req-ctx-id-api-key"@
        ||| name == "x-amz-req-ctx-id-access-key"@
        ||| name == "x-amz-req-ctx-id-source-ip"@
        ||| name == "x-amz-req-ctx-id-cognito-authentication-type"@
        ||| name == "x-amz-req-ctx-id-cognito-authentication-provider"@
        ||| name == "x-amz-req-ctx-id-user-arn"@
        ||| name == "x-amz-req-ctx-id-user-agent"@
        ||| name == "x-amz-req-ctx-id-user"@
        ||| name == "x-amz-req-ctx-resource-path"@
        ||| name == "x-amz-req-ctx-request-time"@
        ||| name == "x-amz-req-ctx-apiid"@
        ||| exists|i: int|
            0 <= i < ctx.authorizer@.len() && name == "x-amz-req-ctx-auth-"@ + (
            #[trigger] ctx.authorizer@[i]).0@
    } by {
        assert(headers.get(name) is Some);
        assert(before.get(name) is None);
    }
    assert forall|i: int| 0 <= i < ctx.authorizer@.len() implies headers.contains_key(
        "x-amz-req-ctx-auth-"@ + (#[trigger] ctx.authorizer@[i]).0@,
    ) by {
        lemma_some_key_is_last(ctx.authorizer@, i);
        let j = choose|j: int|
            i <= j < ctx.authorizer@.len() && (#[trigger] ctx.authorizer@[j]).0@
                == ctx.authorizer@[i].0@ && (forall|k: int|
                j < k < ctx.authorizer@.len() ==> (#[trigger] ctx.authorizer@[k]).0@
                    != ctx.authorizer@[j].0@);
        assert(headers.get("x-amz-req-ctx-auth-"@ + ctx.authorizer@[j].0@) is Some);
    }
    assert forall|i: int|
        0 <= i < ctx.authorizer@.len() && (forall|j: int|
            i < j < ctx.authorizer@.len() ==> (#[trigger] ctx.authorizer@[j]).0@
                != ctx.authorizer@[i].0@) implies headers["x-amz-req-ctx-auth-"@ + (
    #[trigger] ctx.authorizer@[i]).0@] == outside::json_document(ctx.authorizer@[i].1) by {
        lemma_get(headers, "x-amz-req-ctx-auth-"@ + ctx.authorizer@[i].0@);
    }
}

/// The headers of the other contexts: that of the target group where a load
/// balancer gives one, and none for an HTTP API of API Gateway.
pub proof fn law_other_contexts(ctx: AlbContext, headers: Headers)
    requires
        headers == with_fields(Headers::empty(), context_fields(RequestContext::Alb(ctx))),
    ensures
        headers.contains_key("x-amz-req-ctx-target-group-arn"@) <==> ctx.target_group_arn is Some,
        ctx.target_group_arn matches Some(value) ==> headers["x-amz-req-ctx-target-group-arn"@]
            == value@,
        forall|name: Seq<char>| #[trigger]
            headers.contains_key(name) ==> name == "x-amz-req-ctx-target-group-arn"@,
        with_fields(Headers::empty(), context_fields(RequestContext::ApiGatewayV2))
            == Headers::empty(),
{
    let fields = context_fields(RequestContext::Alb(ctx));
    reveal_with_fuel(with_fields, 2);
    assert(fields.drop_last() =~= Seq::empty());
    assert(fields.last().0 == "x-amz-req-ctx-target-group-arn"@);
}

} // verus!
