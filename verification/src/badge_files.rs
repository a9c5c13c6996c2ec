//! The names of the files that hold the badges of a pack's modules.

use vstd::prelude::*;
use vstd::string::*;

verus! {

/// The name of the file that holds the badge called `name`.
pub open spec fn badge_file_name_text(name: Seq<char>) -> Seq<char> {
    "icon_"@ + name + ".png"@
}

/// The name of the file that holds the badge called `name`.
pub fn badge_file_name(name: &str) -> (file_name: String)
    ensures
        file_name@ == badge_file_name_text(name@),
{
    let mut file_name = String::from_str("icon_");
    file_name.append(name);
    file_name.append(".png");
    file_name
}

/// The name of the badge that the file called `file_name` holds; none where
/// the file is not named as a badge's file is.
pub fn badge_name(file_name: &str) -> (name: Option<String>)
    ensures
        match name {
            Some(n) => file_name@ == badge_file_name_text(n@),
            None => forall|n: Seq<char>| file_name@ != badge_file_name_text(n),
        },
{
    proof {
        reveal_strlit("icon_");
        reveal_strlit(".png");
    }
    let length = file_name.unicode_len();
    if length < 9 {
        assert forall|n: Seq<char>| file_name@ != badge_file_name_text(n) by {
            assert(badge_file_name_text(n).len() == 9 + n.len());
        }
        return None;
    }
    let starts = file_name.get_char(0) == 'i' && file_name.get_char(1) == 'c' && file_name.get_char(
        2,
    ) == 'o' && file_name.get_char(3) == 'n' && file_name.get_char(4) == '_';
    let ends = file_name.get_char(length - 4) == '.' && file_name.get_char(length - 3) == 'p'
        && file_name.get_char(length - 2) == 'n' && file_name.get_char(length - 1) == 'g';
    if !starts || !ends {
        assert forall|n: Seq<char>| file_name@ != badge_file_name_text(n) by {
            let full = badge_file_name_text(n);
            assert(full.len() == 9 + n.len());
            assert(full[0] == 'i' && full[1] == 'c' && full[2] == 'o' && full[3] == 'n' && full[4]
                == '_');
            assert(full[full.len() - 4] == '.' && full[full.len() - 3] == 'p' && full[full.len()
                - 2] == 'n' && full[full.len() - 1] == 'g');
        }
        return None;
    }
    let middle = file_name.substring_char(5, length - 4);
    let name = String::from_str(middle);
    assert(file_name@ =~= badge_file_name_text(name@));
    Some(name)
}

} // verus!
