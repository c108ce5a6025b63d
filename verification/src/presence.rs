//! What is shown of a session: the texts and the link of the presence that
//! is broadcast.

use crate::game::unknown_scenario;
use crate::score::Score;
use crate::text::{chars_of, decimal, digit_char, digit_of, push_decimal, same_text};
use vstd::prelude::*;

verus! {

/// A score as it is shown: the points with one decimal place.
pub open spec fn score_text(score: Score) -> Seq<char> {
    let magnitude: nat = if score < 0 {
        (-score) as nat
    } else {
        score as nat
    };
    let sign = if score < 0 {
        seq!['-']
    } else {
        Seq::<char>::empty()
    };
    sign + decimal(magnitude / 10) + seq!['.', digit_char((magnitude % 10) as int)]
}

/// A score as it is shown.
pub fn format_score(score: Score) -> (r: String)
    ensures
        r@ == score_text(score),
{
    let mut out = String::new();
    let magnitude: u64 = if score < 0 {
        out.push('-');
        if score == i64::MIN {
            9223372036854775808u64
        } else {
            (-score) as u64
        }
    } else {
        score as u64
    };
    assert(out@ =~= if score < 0 {
        seq!['-']
    } else {
        Seq::<char>::empty()
    });
    push_decimal(&mut out, magnitude / 10);
    out.push('.');
    out.push(digit_of(magnitude % 10));
    assert(out@ =~= score_text(score));
    out
}

/// A scenario name as it stands in a link: each space is `%20`, each
/// ampersand `%26`.
pub open spec fn link_name(name: Seq<char>) -> Seq<char>
    decreases name.len(),
{
    if name.len() == 0 {
        Seq::<char>::empty()
    } else {
        let head = link_name(name.drop_last());
        if name.last() == ' ' {
            head + "%20"@
        } else if name.last() == '&' {
            head + "%26"@
        } else {
            head.push(name.last())
        }
    }
}

/// A scenario name as it stands in a link.
pub fn encode_link_name(name: &str) -> (r: String)
    ensures
        r@ == link_name(name@),
{
    let chars = chars_of(name);
    let mut out = String::new();
    let mut i: usize = 0;
    assert(chars@.take(0) =~= Seq::<char>::empty());
    while i < chars.len()
        invariant
            i <= chars.len(),
            out@ == link_name(chars@.take(i as int)),
        decreases chars.len() - i,
    {
        proof {
            assert(chars@.take(i + 1).drop_last() =~= chars@.take(i as int));
            assert(chars@.take(i + 1).last() == chars@[i as int]);
        }
        if chars[i] == ' ' {
            out.append("%20");
        } else if chars[i] == '&' {
            out.append("%26");
        } else {
            out.push(chars[i]);
        }
        i += 1;
    }
    assert(chars@.take(chars.len() as int) =~= chars@);
    out
}

/// The application under which the presence is broadcast.
pub const CLIENT_ID: &'static str = "1321990331083784202";

/// The presence that is broadcast for a session.
#[derive(Debug)]
pub struct Presence {
    /// The first line: the scenario played.
    pub details: String,
    /// The second line: the high score.
    pub state: String,
    /// The key of the image that is shown.
    pub image: String,
    /// The text of the image: the best score of the session.
    pub image_text: String,
    /// The anchor of the elapsed time, in seconds since the Unix epoch.
    pub start_time: Option<i64>,
    /// The label of the button.
    pub button_label: String,
    /// The link behind the button: into the playlist where a share code is
    /// known, else into the scenario.
    pub button_url: String,
}

/// A scenario name for which a presence is broadcast: neither empty nor the
/// unknown scenario.
pub open spec fn is_shown(scenario: Seq<char>) -> bool {
    scenario.len() > 0 && scenario != unknown_scenario()
}

/// The text of the image for the best score of a session.
pub open spec fn session_text(session_highscore: Score) -> Seq<char> {
    if session_highscore > 0 {
        "Session Best: "@ + score_text(session_highscore)
    } else {
        "No session plays yet"@
    }
}

/// The link behind the button.
pub open spec fn button_link(scenario: Seq<char>, share_code: Option<Seq<char>>) -> Seq<char> {
    match share_code {
        Some(code) => "steam://run/824270/?action=jump-to-playlist;sharecode="@ + code,
        None => "steam://run/824270/?action=jump-to-scenario;name="@ + link_name(scenario),
    }
}

/// The label of the button.
pub open spec fn button_text(share_code: Option<Seq<char>>) -> Seq<char> {
    if share_code is Some {
        "Play Playlist"@
    } else {
        "Play Scenario"@
    }
}

/// The share code as a mathematical value.
pub open spec fn code_view(share_code: Option<&str>) -> Option<Seq<char>> {
    match share_code {
        Some(code) => Some(code@),
        None => None,
    }
}

/// The presence to broadcast, or `None` where nothing is to be sent: without
/// a connection, and for an empty or unknown scenario.
pub fn update_presence(
    connected: bool,
    scenario_name: &str,
    start_time: Option<i64>,
    highscore: Score,
    session_highscore: Score,
    share_code: Option<&str>,
) -> (r: Option<Presence>)
    ensures
        r is Some <==> connected && is_shown(scenario_name@),
        r matches Some(p) ==> {
            &&& p.details@ == "Playing: "@ + scenario_name@
            &&& p.state@ == "Highscore: "@ + score_text(highscore)
            &&& p.image@ == "kovaak_image"@
            &&& p.image_text@ == session_text(session_highscore)
            &&& p.start_time == start_time
            &&& p.button_label@ == button_text(code_view(share_code))
            &&& p.button_url@ == button_link(scenario_name@, code_view(share_code))
        },
{
    if !connected {
        return None;
    }
    if scenario_name.is_empty() || same_text(scenario_name, "Unknown Scenario") {
        return None;
    }
    let mut details = "Playing: ".to_owned();
    details.append(scenario_name);
    let mut state = "Highscore: ".to_owned();
    state.append(format_score(highscore).as_str());
    let image_text = if session_highscore > 0 {
        let mut text = "Session Best: ".to_owned();
        text.append(format_score(session_highscore).as_str());
        text
    } else {
        "No session plays yet".to_owned()
    };
    let (button_label, button_url) = match share_code {
        Some(code) => {
            let mut url = "steam://run/824270/?action=jump-to-playlist;sharecode=".to_owned();
            url.append(code);
            ("Play Playlist".to_owned(), url)
        },
        None => {
            let mut url = "steam://run/824270/?action=jump-to-scenario;name=".to_owned();
            url.append(encode_link_name(scenario_name).as_str());
            ("Play Scenario".to_owned(), url)
        },
    };
    Some(
        Presence {
            details,
            state,
            image: "kovaak_image".to_owned(),
            image_text,
            start_time,
            button_label,
            button_url,
        },
    )
}

} // verus!
