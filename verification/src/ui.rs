//! What the screen shows.
use vstd::prelude::*;
use vstd::string::*;

verus! {

/// Whether a text shows a time and says that it is universal time.
pub open spec fn is_utc_time(text: Seq<char>) -> bool {
    text.len() > 4 && text.skip(text.len() - 4) == " UTC"@
}

/// `chrono`'s `DateTime<Utc>` of the system's time, and its `Display` text: whatever the clock
/// shows, be it a time before the Unix epoch, followed by the name of the zone.
#[verifier::external_body]
fn utc_now_text() -> (text: String)
    ensures
        is_utc_time(text@),
{
    chrono::DateTime::<chrono::Utc>::from(std::time::SystemTime::now()).to_string()
}

/// The line that shows a time.
pub fn time_line(now: &str) -> (line: String)
    ensures
        line@ == "Default format: "@ + now@,
{
    let mut line = "Default format: ".to_owned();
    line.append(now);
    line
}

/// The line that shows the time now.
pub fn get_time() -> (line: String)
    ensures
        exists|now: Seq<char>|
            #[trigger] is_utc_time(now) && line@ == "Default format: "@ + now,
{
    let now = utc_now_text();
    time_line(now.as_str())
}

/// What the screen shows: two panels, one above the other.
#[derive(Debug, PartialEq, Eq)]
pub struct Screen {
    /// How far the panels are from the left and the right edge.
    pub horizontal_margin: u16,
    /// How far they are from the top and the bottom edge.
    pub vertical_margin: u16,
    /// How much of the height the upper panel has, and how much the lower one.
    pub percentages: (u16, u16),
    pub upper: String,
    pub lower: String,
}

/// Whether a screen shows a message above and a line below, in panels of equal height.
pub open spec fn shows(screen: Screen, margin: u16, above: Seq<char>, below: Seq<char>) -> bool {
    &&& screen.horizontal_margin == margin
    &&& screen.vertical_margin == 2
    &&& screen.percentages == (50u16, 50u16)
    &&& screen.upper@ == above
    &&& screen.lower@ == below
}

/// The screen with a message and a time.
pub fn screen_at(margin: u16, default_message: &str, now: &str) -> (screen: Screen)
    ensures
        shows(screen, margin, default_message@, "Default format: "@ + now@),
{
    Screen {
        horizontal_margin: margin,
        vertical_margin: 2,
        percentages: (50, 50),
        upper: default_message.to_owned(),
        lower: time_line(now),
    }
}

/// The screen with a message and the time now.
pub fn draw_ui(margin: u16, default_message: &str) -> (screen: Screen)
    ensures
        exists|now: Seq<char>|
            #[trigger] is_utc_time(now) && shows(
                screen,
                margin,
                default_message@,
                "Default format: "@ + now,
            ),
{
    let now = utc_now_text();
    screen_at(margin, default_message, now.as_str())
}

/// What a screen that shows a message above a line holds, and when a text shows a universal time.
pub proof fn law_screen(
    screen: Screen,
    margin: u16,
    above: Seq<char>,
    below: Seq<char>,
    time: Seq<char>,
)
    ensures
        shows(screen, margin, above, below) <==> {
            &&& screen.horizontal_margin == margin
            &&& screen.vertical_margin == 2
            &&& screen.percentages.0 == 50 && screen.percentages.1 == 50
            &&& screen.upper@ == above
            &&& screen.lower@ == below
        },
        is_utc_time(time) <==> exists|shown: Seq<char>|
            shown.len() > 0 && time == #[trigger] (shown + " UTC"@),
{
    reveal_strlit(" UTC");
    if is_utc_time(time) {
        let shown = time.take(time.len() - 4);
        assert(time =~= shown + " UTC"@);
    }
    if exists|shown: Seq<char>| shown.len() > 0 && time == #[trigger] (shown + " UTC"@) {
        let shown = choose|shown: Seq<char>|
            shown.len() > 0 && time == #[trigger] (shown + " UTC"@);
        assert(time.skip(time.len() - 4) =~= " UTC"@);
    }
}

} // verus!
