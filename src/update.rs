//! Texts of the dialogs that offer an application update.

use vstd::prelude::*;

verus! {

/// Title of the dialog that offers version updates of `app`.
pub open spec fn update_title_spec(app: Seq<char>) -> Seq<char> {
    "A new version of "@ + app + " is available!"@
}

/// Body of the dialog: versions, question, then the release notes.
pub open spec fn update_message_spec(
    app: Seq<char>,
    version: Seq<char>,
    current: Seq<char>,
    notes: Seq<char>,
) -> Seq<char> {
    app + " "@ + version + " is now available -- you have "@ + current
        + ".\n\nWould you like to install it now?\n\nRelease Notes:\n"@ + notes
}

/// Title and body of the dialog that offers version `version` of `app` to a
/// user who has `current`; missing release notes read as empty.
pub fn update_prompt(app: &str, version: &str, current: &str, notes: Option<String>) -> (r: (
    String,
    String,
))
    ensures
        r.0@ == update_title_spec(app@),
        r.1@ == update_message_spec(
            app@,
            version@,
            current@,
            match notes {
                Some(n) => n@,
                None => Seq::<char>::empty(),
            },
        ),
{
    let mut title = String::from_str("A new version of ");
    title.append(app);
    title.append(" is available!");
    let mut message = String::from_str(app);
    message.append(" ");
    message.append(version);
    message.append(" is now available -- you have ");
    message.append(current);
    message.append(".\n\nWould you like to install it now?\n\nRelease Notes:\n");
    match &notes {
        Some(n) => message.append(n.as_str()),
        None => {},
    }
    assert(title@ =~= update_title_spec(app@));
    assert(message@ =~= update_message_spec(
        app@,
        version@,
        current@,
        match notes {
            Some(n) => n@,
            None => Seq::<char>::empty(),
        },
    ));
    (title, message)
}

} // verus!
