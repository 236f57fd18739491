//! What the server is asked for about collections and things, and what a caller is told when
//! it does not answer.
use crate::error::{failure, ErrorView, SdkError};
use crate::json::opt_view;
use crate::text::{cat, owned};
use vstd::prelude::*;

verus! {

/// A request to the server. A text that is not given is empty.
#[derive(Debug)]
pub enum ThingsRequest {
    CreateThingCollection { title: String, uuid: String },
    ListThingCollections { limit: i32, offset: i32, creator_app_id: String },
    GetThingCollection { uuid: String },
    UpdateThingCollection { uuid: String, title: String },
    CreateThing {
        collection_uuid: String,
        datatype: String,
        data_json: String,
        parent_uuid: String,
        title: String,
        uuid: String,
    },
    ListThings {
        collection_uuid: String,
        parent_uuid: String,
        datatype: String,
        creator_app_id: String,
        limit: i32,
        offset: i32,
    },
    GetThing { uuid: String },
    UpdateThing {
        uuid: String,
        datatype: String,
        data_json: String,
        parent_uuid: String,
        collection_uuid: String,
        title: String,
    },
}

/// A request to the server, over character sequences.
pub enum RequestView {
    CreateThingCollection { title: Seq<char>, uuid: Seq<char> },
    ListThingCollections { limit: i32, offset: i32, creator_app_id: Seq<char> },
    GetThingCollection { uuid: Seq<char> },
    UpdateThingCollection { uuid: Seq<char>, title: Seq<char> },
    CreateThing {
        collection_uuid: Seq<char>,
        datatype: Seq<char>,
        data_json: Seq<char>,
        parent_uuid: Seq<char>,
        title: Seq<char>,
        uuid: Seq<char>,
    },
    ListThings {
        collection_uuid: Seq<char>,
        parent_uuid: Seq<char>,
        datatype: Seq<char>,
        creator_app_id: Seq<char>,
        limit: i32,
        offset: i32,
    },
    GetThing { uuid: Seq<char> },
    UpdateThing {
        uuid: Seq<char>,
        datatype: Seq<char>,
        data_json: Seq<char>,
        parent_uuid: Seq<char>,
        collection_uuid: Seq<char>,
        title: Seq<char>,
    },
}

impl View for ThingsRequest {
    type V = RequestView;

    open spec fn view(&self) -> RequestView {
        match self {
            ThingsRequest::CreateThingCollection { title, uuid } => RequestView::CreateThingCollection {
                title: title@,
                uuid: uuid@,
            },
            ThingsRequest::ListThingCollections { limit, offset, creator_app_id } => RequestView::ListThingCollections {
                limit: *limit,
                offset: *offset,
                creator_app_id: creator_app_id@,
            },
            ThingsRequest::GetThingCollection { uuid } => RequestView::GetThingCollection {
                uuid: uuid@,
            },
            ThingsRequest::UpdateThingCollection { uuid, title } => RequestView::UpdateThingCollection {
                uuid: uuid@,
                title: title@,
            },
            ThingsRequest::CreateThing { collection_uuid, datatype, data_json, parent_uuid, title, uuid } => RequestView::CreateThing {
                collection_uuid: collection_uuid@,
                datatype: datatype@,
                data_json: data_json@,
                parent_uuid: parent_uuid@,
                title: title@,
                uuid: uuid@,
            },
            ThingsRequest::ListThings { collection_uuid, parent_uuid, datatype, creator_app_id, limit, offset } => RequestView::ListThings {
                collection_uuid: collection_uuid@,
                parent_uuid: parent_uuid@,
                datatype: datatype@,
                creator_app_id: creator_app_id@,
                limit: *limit,
                offset: *offset,
            },
            ThingsRequest::GetThing { uuid } => RequestView::GetThing {
                uuid: uuid@,
            },
            ThingsRequest::UpdateThing { uuid, datatype, data_json, parent_uuid, collection_uuid, title } => RequestView::UpdateThing {
                uuid: uuid@,
                datatype: datatype@,
                data_json: data_json@,
                parent_uuid: parent_uuid@,
                collection_uuid: collection_uuid@,
                title: title@,
            },
        }
    }
}

/// The text that stands for one that is not given.
pub open spec fn given(s: Option<Seq<char>>) -> Seq<char> {
    match s {
        Some(s) => s,
        None => ""@,
    }
}

fn or_empty(s: Option<String>) -> (out: String)
    ensures
        out@ == given(opt_view(s)),
{
    match s {
        Some(s) => s,
        None => owned(""),
    }
}

/// The name of a request.
pub open spec fn request_name(r: RequestView) -> Seq<char> {
    match r {
        RequestView::CreateThingCollection { .. } => "CreateThingCollection"@,
        RequestView::ListThingCollections { .. } => "ListThingCollections"@,
        RequestView::GetThingCollection { .. } => "GetThingCollection"@,
        RequestView::UpdateThingCollection { .. } => "UpdateThingCollection"@,
        RequestView::CreateThing { .. } => "CreateThing"@,
        RequestView::ListThings { .. } => "ListThings"@,
        RequestView::GetThing { .. } => "GetThing"@,
        RequestView::UpdateThing { .. } => "UpdateThing"@,
    }
}

impl ThingsRequest {
    /// The name of the request.
    pub fn name(&self) -> (name: &'static str)
        ensures
            name@ == request_name(self@),
    {
        match self {
            ThingsRequest::CreateThingCollection { .. } => "CreateThingCollection",
            ThingsRequest::ListThingCollections { .. } => "ListThingCollections",
            ThingsRequest::GetThingCollection { .. } => "GetThingCollection",
            ThingsRequest::UpdateThingCollection { .. } => "UpdateThingCollection",
            ThingsRequest::CreateThing { .. } => "CreateThing",
            ThingsRequest::ListThings { .. } => "ListThings",
            ThingsRequest::GetThing { .. } => "GetThing",
            ThingsRequest::UpdateThing { .. } => "UpdateThing",
        }
    }
}

/// What became of a request.
#[derive(Debug)]
pub enum RequestOutcome<T> {
    Answered { answer: T },
    TimedOut,
    Refused { fault: String },
}

/// What a caller is told of a request that was not answered.
pub open spec fn request_fault<T>(r: RequestView, outcome: RequestOutcome<T>) -> Option<Seq<char>> {
    match outcome {
        RequestOutcome::Answered { .. } => None,
        RequestOutcome::TimedOut => Some(request_name(r) + " request timed out"@),
        RequestOutcome::Refused { fault } => Some(fault@),
    }
}

/// A client of the server: with which token it comes, and how many seconds it waits.
#[derive(Debug)]
pub struct ThingsClient {
    pub bearer_token: String,
    pub request_timeout_secs: u64,
}

impl ThingsClient {
    /// A client with a connection of its own: it waits a minute.
    pub fn new(bearer_token: &str) -> (c: Self)
        ensures
            c.bearer_token@ == bearer_token@,
            c.request_timeout_secs == 60,
    {
        ThingsClient { bearer_token: owned(bearer_token), request_timeout_secs: 60 }
    }

    /// A client on a connection that others use too: it waits as long as they do.
    pub fn new_with_shared_transport(bearer_token: &str, request_timeout_secs: u64) -> (c: Self)
        ensures
            c.bearer_token@ == bearer_token@,
            c.request_timeout_secs == request_timeout_secs,
    {
        ThingsClient { bearer_token: owned(bearer_token), request_timeout_secs }
    }

    /// Asks for a new collection.
    pub fn create_collection(
        &self,
        title: &str,
        uuid: Option<String>,
    ) -> (r: ThingsRequest)
        ensures
            r@ == (RequestView::CreateThingCollection {
                title: title@,
                uuid: given(opt_view(uuid)),
            }),
    {
        ThingsRequest::CreateThingCollection {
            title: owned(title),
            uuid: or_empty(uuid),
        }
    }

    /// Asks for collections, and only for those of an application where one is given.
    pub fn list_collections(
        &self,
        limit: i32,
        offset: i32,
        creator_app_id: Option<String>,
    ) -> (r: ThingsRequest)
        ensures
            r@ == (RequestView::ListThingCollections {
                limit,
                offset,
                creator_app_id: given(opt_view(creator_app_id)),
            }),
    {
        ThingsRequest::ListThingCollections {
            limit,
            offset,
            creator_app_id: or_empty(creator_app_id),
        }
    }

    /// Asks for a collection.
    pub fn get_collection(
        &self,
        uuid: &str,
    ) -> (r: ThingsRequest)
        ensures
            r@ == (RequestView::GetThingCollection {
                uuid: uuid@,
            }),
    {
        ThingsRequest::GetThingCollection {
            uuid: owned(uuid),
        }
    }

    /// Asks for a collection to get another title.
    pub fn update_collection(
        &self,
        uuid: &str,
        title: &str,
    ) -> (r: ThingsRequest)
        ensures
            r@ == (RequestView::UpdateThingCollection {
                uuid: uuid@,
                title: title@,
            }),
    {
        ThingsRequest::UpdateThingCollection {
            uuid: owned(uuid),
            title: owned(title),
        }
    }

    /// Asks for a new thing.
    pub fn create_thing(
        &self,
        collection_uuid: &str,
        datatype: &str,
        data_json: &str,
        parent_uuid: Option<String>,
        title: Option<String>,
        uuid: Option<String>,
    ) -> (r: ThingsRequest)
        ensures
            r@ == (RequestView::CreateThing {
                collection_uuid: collection_uuid@,
                datatype: datatype@,
                data_json: data_json@,
                parent_uuid: given(opt_view(parent_uuid)),
                title: given(opt_view(title)),
                uuid: given(opt_view(uuid)),
            }),
    {
        ThingsRequest::CreateThing {
            collection_uuid: owned(collection_uuid),
            datatype: owned(datatype),
            data_json: owned(data_json),
            parent_uuid: or_empty(parent_uuid),
            title: or_empty(title),
            uuid: or_empty(uuid),
        }
    }

    /// Asks for things, and only for those that fit what is given.
    pub fn list_things(
        &self,
        collection_uuid: Option<String>,
        parent_uuid: Option<String>,
        datatype: Option<String>,
        creator_app_id: Option<String>,
        limit: i32,
        offset: i32,
    ) -> (r: ThingsRequest)
        ensures
            r@ == (RequestView::ListThings {
                collection_uuid: given(opt_view(collection_uuid)),
                parent_uuid: given(opt_view(parent_uuid)),
                datatype: given(opt_view(datatype)),
                creator_app_id: given(opt_view(creator_app_id)),
                limit,
                offset,
            }),
    {
        ThingsRequest::ListThings {
            collection_uuid: or_empty(collection_uuid),
            parent_uuid: or_empty(parent_uuid),
            datatype: or_empty(datatype),
            creator_app_id: or_empty(creator_app_id),
            limit,
            offset,
        }
    }

    /// Asks for a thing.
    pub fn get_thing(
        &self,
        uuid: &str,
    ) -> (r: ThingsRequest)
        ensures
            r@ == (RequestView::GetThing {
                uuid: uuid@,
            }),
    {
        ThingsRequest::GetThing {
            uuid: owned(uuid),
        }
    }

    /// Asks for a thing to change; what is not given stays as it is.
    pub fn update_thing(
        &self,
        uuid: &str,
        datatype: Option<String>,
        data_json: Option<String>,
        parent_uuid: Option<String>,
        collection_uuid: Option<String>,
        title: Option<String>,
    ) -> (r: ThingsRequest)
        ensures
            r@ == (RequestView::UpdateThing {
                uuid: uuid@,
                datatype: given(opt_view(datatype)),
                data_json: given(opt_view(data_json)),
                parent_uuid: given(opt_view(parent_uuid)),
                collection_uuid: given(opt_view(collection_uuid)),
                title: given(opt_view(title)),
            }),
    {
        ThingsRequest::UpdateThing {
            uuid: owned(uuid),
            datatype: or_empty(datatype),
            data_json: or_empty(data_json),
            parent_uuid: or_empty(parent_uuid),
            collection_uuid: or_empty(collection_uuid),
            title: or_empty(title),
        }
    }

    /// The token that a request carries; without one it is not sent.
    pub fn authorized(token: Option<String>) -> (out: Result<String, SdkError>)
        ensures
            match token {
                Some(t) => out == Ok::<String, SdkError>(t),
                None => out matches Err(e) && e@ == (ErrorView::Failure {
                    message: "Authentication bearer token is not configured"@,
                }),
            },
    {
        match token {
            Some(t) => Ok(t),
            None => Err(failure("Authentication bearer token is not configured")),
        }
    }

    /// What a caller gets of a request.
    pub fn finish<T>(&self, request: &ThingsRequest, outcome: RequestOutcome<T>) -> (out: Result<
        T,
        SdkError,
    >)
        ensures
            match request_fault(request@, outcome) {
                None => out is Ok && outcome == (RequestOutcome::Answered { answer: out->Ok_0 }),
                Some(fault) => out matches Err(e) && e@ == (ErrorView::Failure { message: fault }),
            },
    {
        match outcome {
            RequestOutcome::Answered { answer } => Ok(answer),
            RequestOutcome::TimedOut => {
                let message = cat(request.name(), " request timed out");
                Err(failure(message.as_str()))
            },
            RequestOutcome::Refused { fault } => Err(failure(fault.as_str())),
        }
    }
}

} // verus!
