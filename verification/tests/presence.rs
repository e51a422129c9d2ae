use music_core::presence::{presence_of, Activity, Assets, But, Presence, Timestamps};

fn nothing<'a>() -> Activity<'a> {
    Activity {
        state: None,
        details: None,
        large_image: None,
        small_image: None,
        large_text: None,
        small_text: None,
        start: None,
        end: None,
        buttons: None,
        listening_type: None,
    }
}

#[test]
fn empty_activity_has_the_default_state_only() {
    assert_eq!(
        presence_of(nothing()),
        Presence {
            state: "Test".to_string(),
            details: None,
            timestamps: None,
            assets: None,
            buttons: None,
            listening: false,
        }
    );
}

#[test]
fn full_activity_is_handed_on() {
    let buttons = vec![But { label: "Listen".to_string(), url: "https://example.org".to_string() }];
    let activity = Activity {
        state: Some("by Artist"),
        details: Some("Song"),
        large_image: Some("cover"),
        small_image: Some("play"),
        large_text: Some("Album"),
        small_text: Some("Playing"),
        start: Some(10),
        end: Some(250),
        buttons: Some(buttons.clone()),
        listening_type: Some(true),
    };
    assert_eq!(
        presence_of(activity),
        Presence {
            state: "by Artist".to_string(),
            details: Some("Song".to_string()),
            timestamps: Some(Timestamps { start: Some(10), end: Some(250) }),
            assets: Some(Assets {
                large_image: Some("cover".to_string()),
                small_image: Some("play".to_string()),
                large_text: Some("Album".to_string()),
                small_text: Some("Playing".to_string()),
            }),
            buttons: Some(buttons),
            listening: true,
        }
    );
}

#[test]
fn one_timestamp_is_enough_for_timestamps() {
    let p = presence_of(Activity { start: Some(5), ..nothing() });
    assert_eq!(p.timestamps, Some(Timestamps { start: Some(5), end: None }));
    let p = presence_of(Activity { end: Some(-1), ..nothing() });
    assert_eq!(p.timestamps, Some(Timestamps { start: None, end: Some(-1) }));
}

#[test]
fn one_image_or_text_is_enough_for_assets() {
    let p = presence_of(Activity { small_text: Some("x"), ..nothing() });
    assert_eq!(
        p.assets,
        Some(Assets {
            large_image: None,
            small_image: None,
            large_text: None,
            small_text: Some("x".to_string()),
        })
    );
    let p = presence_of(Activity { large_image: Some("y"), ..nothing() });
    assert_eq!(p.assets.unwrap().large_image, Some("y".to_string()));
}

#[test]
fn any_listening_type_means_listening() {
    assert!(presence_of(Activity { listening_type: Some(false), ..nothing() }).listening);
    assert!(presence_of(Activity { listening_type: Some(true), ..nothing() }).listening);
    assert!(!presence_of(nothing()).listening);
}

#[test]
fn empty_button_list_is_kept() {
    let p = presence_of(Activity { buttons: Some(vec![]), ..nothing() });
    assert_eq!(p.buttons, Some(vec![]));
}
