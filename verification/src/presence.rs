//! What the player shows of itself to a chat client: the activity as the
//! front end describes it, and the presence made of it.

use vstd::prelude::*;
use vstd::string::*;

verus! {

/// A button shown with the activity.
#[derive(Clone, Debug, PartialEq, Eq)]
pub struct But {
    pub label: String,
    pub url: String,
}

/// An activity as the front end describes it. Every field may be missing.
#[derive(Clone, Debug, PartialEq, Eq)]
pub struct Activity<'a> {
    pub state: Option<&'a str>,
    pub details: Option<&'a str>,
    pub large_image: Option<&'a str>,
    pub small_image: Option<&'a str>,
    pub large_text: Option<&'a str>,
    pub small_text: Option<&'a str>,
    pub start: Option<i64>,
    pub end: Option<i64>,
    pub buttons: Option<Vec<But>>,
    pub listening_type: Option<bool>,
}

/// When the activity began and when it will end.
#[derive(Clone, Copy, Debug, PartialEq, Eq)]
pub struct Timestamps {
    pub start: Option<i64>,
    pub end: Option<i64>,
}

/// The images of an activity and the texts shown with them.
#[derive(Clone, Debug, PartialEq, Eq)]
pub struct Assets {
    pub large_image: Option<String>,
    pub small_image: Option<String>,
    pub large_text: Option<String>,
    pub small_text: Option<String>,
}

/// An `Assets` as specifications see it: strings and vectors by their contents.
pub struct AssetsView {
    pub large_image: Option<Seq<char>>,
    pub small_image: Option<Seq<char>>,
    pub large_text: Option<Seq<char>>,
    pub small_text: Option<Seq<char>>,
}

impl DeepView for Assets {
    type V = AssetsView;

    open spec fn deep_view(&self) -> AssetsView {
        AssetsView {
            large_image: self.large_image.deep_view(),
            small_image: self.small_image.deep_view(),
            large_text: self.large_text.deep_view(),
            small_text: self.small_text.deep_view(),
        }
    }
}

/// The presence to hand to the chat client.
#[derive(Clone, Debug, PartialEq, Eq)]
pub struct Presence {
    pub state: String,
    pub details: Option<String>,
    pub timestamps: Option<Timestamps>,
    pub assets: Option<Assets>,
    pub buttons: Option<Vec<But>>,
    /// Show the activity as listening rather than playing.
    pub listening: bool,
}

/// The timestamps of an activity: present where it has a start or an end.
pub open spec fn timestamps_of(start: Option<i64>, end: Option<i64>) -> Option<Timestamps> {
    if start is Some || end is Some {
        Some(Timestamps { start, end })
    } else {
        None
    }
}

/// The assets of an activity: present where it has either image or either
/// text.
pub open spec fn assets_of(
    large_image: Option<Seq<char>>,
    small_image: Option<Seq<char>>,
    large_text: Option<Seq<char>>,
    small_text: Option<Seq<char>>,
) -> Option<AssetsView> {
    if large_image is Some || small_image is Some || large_text is Some || small_text is Some {
        Some(AssetsView { large_image, small_image, large_text, small_text })
    } else {
        None
    }
}

fn owned(text: Option<&str>) -> (r: Option<String>)
    ensures
        r.deep_view() == text.deep_view(),
{
    match text {
        Some(t) => Some(String::from_str(t)),
        None => None,
    }
}

/// Makes the presence for an activity.
///
/// The state is `Test` where the activity gives none. Timestamps are set
/// where there is a start or an end, assets where there is an image or a
/// text. The buttons are handed on. Any listening type, true or false, shows
/// the activity as listening.
pub fn presence_of(activity: Activity) -> (presence: Presence)
    ensures
        presence.state@ == match activity.state {
            Some(s) => s@,
            None => "Test"@,
        },
        presence.details.deep_view() == activity.details.deep_view(),
        presence.timestamps == timestamps_of(activity.start, activity.end),
        presence.assets.deep_view() == assets_of(
            activity.large_image.deep_view(),
            activity.small_image.deep_view(),
            activity.large_text.deep_view(),
            activity.small_text.deep_view(),
        ),
        presence.buttons == activity.buttons,
        presence.listening == activity.listening_type is Some,
{
    let state = match activity.state {
        Some(s) => String::from_str(s),
        None => String::from_str("Test"),
    };
    let timestamps = if activity.start.is_some() || activity.end.is_some() {
        Some(Timestamps { start: activity.start, end: activity.end })
    } else {
        None
    };
    let assets = if activity.large_image.is_some() || activity.small_image.is_some()
        || activity.large_text.is_some() || activity.small_text.is_some() {
        Some(
            Assets {
                large_image: owned(activity.large_image),
                small_image: owned(activity.small_image),
                large_text: owned(activity.large_text),
                small_text: owned(activity.small_text),
            },
        )
    } else {
        None
    };
    Presence {
        state,
        details: owned(activity.details),
        timestamps,
        assets,
        buttons: activity.buttons,
        listening: activity.listening_type.is_some(),
    }
}

} // verus!
