use vstd::prelude::*;
use vstd::string::*;
use crate::errors::ProtocolError;

verus! {

/// Whether two string slices hold the same characters.
pub fn str_eq(a: &str, b: &str) -> (r: bool)
    ensures
        r == (a@ == b@),
{
    let n = a.unicode_len();
    let m = b.unicode_len();
    if n != m {
        return false;
    }
    let mut i: usize = 0;
    while i < n
        invariant
            n == a@.len(),
            n == b@.len(),
            i <= n,
            forall|j: int| 0 <= j < i ==> a@[j] == b@[j],
        decreases n - i,
    {
        if a.get_char(i) != b.get_char(i) {
            return false;
        }
        i = i + 1;
    }
    proof {
        assert(a@ =~= b@);
    }
    true
}

/// The second-level handler an `action` frame's body subtype selects.
/// An unrecognized subtype is dropped without an error: the loop goes
/// on.
#[derive(Clone, Copy, Debug, PartialEq, Eq, Structural)]
pub enum ActionRoute {
    FetchPlayground,
    FetchChannelInfo,
    FetchCharacters,
    FetchButtons,
    FetchCanvas,
    FetchContextMenu,
    /// The subtype is absent or not in the table: the frame is dropped,
    /// the loop continues.
    UnknownSubtype,
}

/// The handler an inbound frame's type tag selects.  `Drop` carries the
/// non-fatal fault: the frame is discarded and the receive loop goes on.
#[derive(Clone, Copy, Debug, PartialEq, Eq, Structural)]
pub enum Route {
    CopyClient,
    Update,
    MessageUp,
    Action(ActionRoute),
    ButtonClick,
    MenuClick,
    Drop(ProtocolError),
}

/// The routing table for an `action` frame's body subtype.
pub open spec fn subtype_route_of(subtype: Option<Seq<char>>) -> ActionRoute {
    match subtype {
        None => ActionRoute::UnknownSubtype,
        Some(s) => if s == "fetch_playground"@ {
            ActionRoute::FetchPlayground
        } else if s == "fetch_channel_info"@ {
            ActionRoute::FetchChannelInfo
        } else if s == "fetch_characters"@ {
            ActionRoute::FetchCharacters
        } else if s == "fetch_buttons"@ {
            ActionRoute::FetchButtons
        } else if s == "fetch_canvas"@ {
            ActionRoute::FetchCanvas
        } else if s == "fetch_context_menu"@ {
            ActionRoute::FetchContextMenu
        } else {
            ActionRoute::UnknownSubtype
        },
    }
}

/// The two-level routing table.  The first level reads only the frame's
/// type tag; only an `action` frame's route consults the body subtype.
/// An absent or unknown type is the non-fatal `UnknownType` drop.
pub open spec fn route_of(frame_type: Option<Seq<char>>, subtype: Option<Seq<char>>) -> Route {
    match frame_type {
        None => Route::Drop(ProtocolError::UnknownType),
        Some(t) => if t == "copy_client"@ {
            Route::CopyClient
        } else if t == "update"@ {
            Route::Update
        } else if t == "message_up"@ {
            Route::MessageUp
        } else if t == "action"@ {
            Route::Action(subtype_route_of(subtype))
        } else if t == "button_click"@ {
            Route::ButtonClick
        } else if t == "menu_click"@ {
            Route::MenuClick
        } else {
            Route::Drop(ProtocolError::UnknownType)
        },
    }
}

/// Law: only `action` frames consult the subtype.  For every other type
/// tag the route is the same whatever the subtype field holds, even
/// when one is present.
pub proof fn lemma_subtype_only_for_action(
    t: Seq<char>,
    s1: Option<Seq<char>>,
    s2: Option<Seq<char>>,
)
    requires
        t != "action"@,
    ensures
        route_of(Some(t), s1) == route_of(Some(t), s2),
{
}

/// Law: a dropped frame is never fatal.  Routing yields `Drop` only
/// with `UnknownType`, a fault the dispatch loop survives; a transport
/// failure is the only thing that stops it.
pub proof fn lemma_unknown_type_is_nonfatal(
    frame_type: Option<Seq<char>>,
    subtype: Option<Seq<char>>,
)
    ensures
        route_of(frame_type, subtype) matches Route::Drop(e) ==> e == ProtocolError::UnknownType,
{
}

/// Routes the subtype of one `action` frame.
pub fn route_action_subtype(subtype: Option<&String>) -> (r: ActionRoute)
    ensures
        r == subtype_route_of(match subtype {
            Some(s) => Some(s@),
            None => None,
        }),
{
    match subtype {
        None => ActionRoute::UnknownSubtype,
        Some(s) => {
            if str_eq(s.as_str(), "fetch_playground") {
                ActionRoute::FetchPlayground
            } else if str_eq(s.as_str(), "fetch_channel_info") {
                ActionRoute::FetchChannelInfo
            } else if str_eq(s.as_str(), "fetch_characters") {
                ActionRoute::FetchCharacters
            } else if str_eq(s.as_str(), "fetch_buttons") {
                ActionRoute::FetchButtons
            } else if str_eq(s.as_str(), "fetch_canvas") {
                ActionRoute::FetchCanvas
            } else if str_eq(s.as_str(), "fetch_context_menu") {
                ActionRoute::FetchContextMenu
            } else {
                ActionRoute::UnknownSubtype
            }
        },
    }
}

/// Routes one inbound frame from its type tag and, for `action` frames
/// only, its body subtype.  This is the whole of the dispatcher's
/// state: a fixed table, re-evaluated per frame.
pub fn route_frame(frame_type: Option<&String>, subtype: Option<&String>) -> (r: Route)
    ensures
        r == route_of(
            match frame_type {
                Some(t) => Some(t@),
                None => None,
            },
            match subtype {
                Some(s) => Some(s@),
                None => None,
            },
        ),
{
    match frame_type {
        None => Route::Drop(ProtocolError::UnknownType),
        Some(t) => {
            if str_eq(t.as_str(), "copy_client") {
                Route::CopyClient
            } else if str_eq(t.as_str(), "update") {
                Route::Update
            } else if str_eq(t.as_str(), "message_up") {
                Route::MessageUp
            } else if str_eq(t.as_str(), "action") {
                Route::Action(route_action_subtype(subtype))
            } else if str_eq(t.as_str(), "button_click") {
                Route::ButtonClick
            } else if str_eq(t.as_str(), "menu_click") {
                Route::MenuClick
            } else {
                Route::Drop(ProtocolError::UnknownType)
            }
        },
    }
}

/// The non-fatal fault one routed frame raises, if any: an absent or
/// unknown type tag is `UnknownType`, an `action` frame whose subtype
/// no handler is registered for is `UnknownSubtype`.  Either way the
/// frame is dropped and the loop continues; no route is fatal.
pub fn protocol_fault_of(route: &Route) -> (r: Option<ProtocolError>)
    ensures
        match *route {
            Route::Drop(e) => r == Some(e),
            Route::Action(a) => if a == ActionRoute::UnknownSubtype {
                r == Some(ProtocolError::UnknownSubtype)
            } else {
                r is None
            },
            _ => r is None,
        },
{
    match route {
        Route::Drop(e) => Some(*e),
        Route::Action(ActionRoute::UnknownSubtype) => Some(ProtocolError::UnknownSubtype),
        _ => None,
    }
}

/// The first `len` bytes of a text, or all of it when its encoding is
/// short enough.  Message helpers cap what one frame carries.  A cut
/// inside a multi-byte character is left out by the precondition: the
/// caller picks a byte count on a character boundary.
pub fn limit_len(text: &str, len: usize) -> (r: String)
    requires
        text.spec_bytes().len() <= usize::MAX,
        len >= text.spec_bytes().len() || vstd::utf8::is_char_boundary(
            text.spec_bytes(),
            len as int,
        ),
    ensures
        text.spec_bytes().len() <= len ==> r@ == text@,
        text.spec_bytes().len() > len ==> vstd::utf8::encode_utf8(r@) == text.spec_bytes()
            .subrange(0, len as int),
{
    if text.len() <= len {
        text.to_owned()
    } else {
        let (head, _) = text.split_at(len);
        let r = head.to_owned();
        proof {
            assert(head.spec_bytes() == vstd::utf8::encode_utf8(head@));
            assert(vstd::utf8::encode_utf8(r@) == head.spec_bytes());
            assert(head.spec_bytes() =~= text.spec_bytes().subrange(0, len as int));
        }
        r
    }
}

} // verus!
