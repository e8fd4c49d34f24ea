use vstd::prelude::*;

use vstd::string::StringExecFns;

use crate::cache_keys::{decimal_text, push_decimal};
use crate::text_parse::{chars_of, parse_i32, parse_usize, parsed_i32, parsed_usize, same_text};

verus! {

broadcast use vstd::seq_lib::group_seq_properties;

/// Which chats a Telegram folder takes in, and which it leaves out.
#[derive(Clone, Copy, Debug, PartialEq, Eq, Structural)]
pub struct FolderRules {
    pub contacts: bool,
    pub non_contacts: bool,
    pub groups: bool,
    pub broadcasts: bool,
    pub bots: bool,
    pub exclude_muted: bool,
    pub exclude_read: bool,
    pub exclude_archived: bool,
}

/// A folder command given on the command line.
#[derive(Debug)]
pub enum FolderMaintenance {
    Create { title: String, rules: FolderRules },
    Rename { folder: i32, title: String },
    Reorder { folder: i32, position: usize },
    Share { folder: i32 },
    Delete { folder: i32 },
    Rules { folder: i32, rules: FolderRules },
}

/// Why the command line was refused.
#[derive(Debug)]
pub enum ArgumentError {
    MissingArgumentValue { argument: String },
    InvalidArgumentValue { argument: String, value: String },
    UnknownArgument { argument: String },
}

pub enum FolderMaintenanceModel {
    Create { title: Seq<char>, rules: FolderRules },
    Rename { folder: i32, title: Seq<char> },
    Reorder { folder: i32, position: usize },
    Share { folder: i32 },
    Delete { folder: i32 },
    Rules { folder: i32, rules: FolderRules },
}

pub enum ArgumentErrorModel {
    MissingArgumentValue { argument: Seq<char> },
    InvalidArgumentValue { argument: Seq<char>, value: Seq<char> },
    UnknownArgument { argument: Seq<char> },
}

impl DeepView for FolderRules {
    type V = FolderRules;

    open spec fn deep_view(&self) -> FolderRules {
        *self
    }
}

/// A parse result with its value and error taken by their models.
pub open spec fn result_view<T: DeepView>(r: Result<T, ArgumentError>) -> Result<T::V, ArgumentErrorModel> {
    match r {
        Ok(v) => Ok(v.deep_view()),
        Err(e) => Err(e.deep_view()),
    }
}

impl DeepView for FolderMaintenance {
    type V = FolderMaintenanceModel;

    open spec fn deep_view(&self) -> FolderMaintenanceModel {
        match self {
            FolderMaintenance::Create { title, rules } => FolderMaintenanceModel::Create {
                title: title@,
                rules: *rules,
            },
            FolderMaintenance::Rename { folder, title } => FolderMaintenanceModel::Rename {
                folder: *folder,
                title: title@,
            },
            FolderMaintenance::Reorder { folder, position } => FolderMaintenanceModel::Reorder {
                folder: *folder,
                position: *position,
            },
            FolderMaintenance::Share { folder } => FolderMaintenanceModel::Share { folder: *folder },
            FolderMaintenance::Delete { folder } => FolderMaintenanceModel::Delete { folder: *folder },
            FolderMaintenance::Rules { folder, rules } => FolderMaintenanceModel::Rules {
                folder: *folder,
                rules: *rules,
            },
        }
    }
}

impl DeepView for ArgumentError {
    type V = ArgumentErrorModel;

    open spec fn deep_view(&self) -> ArgumentErrorModel {
        match self {
            ArgumentError::MissingArgumentValue { argument } => ArgumentErrorModel::MissingArgumentValue {
                argument: argument@,
            },
            ArgumentError::InvalidArgumentValue { argument, value } => ArgumentErrorModel::InvalidArgumentValue {
                argument: argument@,
                value: value@,
            },
            ArgumentError::UnknownArgument { argument } => ArgumentErrorModel::UnknownArgument {
                argument: argument@,
            },
        }
    }
}

/// The pieces of a text between commas, in order (an empty text is one empty piece).
pub open spec fn split_commas(s: Seq<char>) -> Seq<Seq<char>>
    decreases s.len(),
{
    if s.len() == 0 {
        seq![Seq::empty()]
    } else {
        let p = split_commas(s.drop_last());
        if s.last() == ',' {
            p.push(Seq::empty())
        } else {
            p.update(p.len() - 1, p.last().push(s.last()))
        }
    }
}

pub open spec fn nonempty_piece() -> spec_fn(Seq<char>) -> bool {
    |piece: Seq<char>| piece.len() > 0
}

/// The rule names a folder rule list may hold.
pub open spec fn known_rule(name: Seq<char>) -> bool {
    ||| name == "contacts"@
    ||| name == "non-contacts"@
    ||| name == "groups"@
    ||| name == "channels"@
    ||| name == "bots"@
    ||| name == "exclude-muted"@
    ||| name == "exclude-read"@
    ||| name == "exclude-archived"@
}

/// A comma-separated rule list: every non-empty piece must name a rule, and a rule holds
/// exactly when it is named.
pub open spec fn folder_rules_of(value: Seq<char>) -> Option<FolderRules> {
    let names = split_commas(value).filter(nonempty_piece());
    if forall|i: int| 0 <= i < names.len() ==> known_rule(#[trigger] names[i]) {
        Some(
            FolderRules {
                contacts: names.contains("contacts"@),
                non_contacts: names.contains("non-contacts"@),
                groups: names.contains("groups"@),
                broadcasts: names.contains("channels"@),
                bots: names.contains("bots"@),
                exclude_muted: names.contains("exclude-muted"@),
                exclude_read: names.contains("exclude-read"@),
                exclude_archived: names.contains("exclude-archived"@),
            },
        )
    } else {
        None
    }
}

pub open spec fn invalid(argument: Seq<char>, value: Seq<char>) -> ArgumentErrorModel {
    ArgumentErrorModel::InvalidArgumentValue { argument, value }
}

/// A folder id: a number above 1.
pub open spec fn folder_id_of(argument: Seq<char>, value: Seq<char>) -> Result<i32, ArgumentErrorModel> {
    match parsed_i32(value) {
        Some(folder) => if folder > 1 {
            Ok(folder)
        } else {
            Err(invalid(argument, value))
        },
        None => Err(invalid(argument, value)),
    }
}

pub open spec fn position_of(argument: Seq<char>, value: Seq<char>) -> Result<usize, ArgumentErrorModel> {
    match parsed_usize(value) {
        Some(position) => Ok(position),
        None => Err(invalid(argument, value)),
    }
}

pub open spec fn rules_of(argument: Seq<char>, value: Seq<char>) -> Result<FolderRules, ArgumentErrorModel> {
    match folder_rules_of(value) {
        Some(rules) => Ok(rules),
        None => Err(invalid(argument, value)),
    }
}

/// The next argument, taken from the front of the rest of the command line.
pub open spec fn next_of(args: Seq<Seq<char>>, argument: Seq<char>) -> (Result<Seq<char>, ArgumentErrorModel>, Seq<
    Seq<char>,
>) {
    if args.len() == 0 {
        (Err(ArgumentErrorModel::MissingArgumentValue { argument }), args)
    } else {
        (Ok(args[0]), args.drop_first())
    }
}

/// The first value is a folder id, the second goes to `make` through `second`.
pub open spec fn folder_command(args: Seq<Seq<char>>, argument: Seq<char>) -> (Result<i32, ArgumentErrorModel>, Seq<
    Seq<char>,
>) {
    let (v, rest) = next_of(args, argument);
    match v {
        Err(e) => (Err(e), rest),
        Ok(value) => (folder_id_of(argument, value), rest),
    }
}

/// A folder command and the arguments it leaves: each value is taken in turn, and the first
/// missing or malformed one is the error.
pub open spec fn folder_maintenance_of(args: Seq<Seq<char>>, argument: Seq<char>) -> (Result<
    FolderMaintenanceModel,
    ArgumentErrorModel,
>, Seq<Seq<char>>) {
    if argument == "--folder-create"@ {
        let (t, r1) = next_of(args, argument);
        match t {
            Err(e) => (Err(e), r1),
            Ok(title) => {
                let (v, r2) = next_of(r1, argument);
                match v {
                    Err(e) => (Err(e), r2),
                    Ok(value) => match rules_of(argument, value) {
                        Ok(rules) => (Ok(FolderMaintenanceModel::Create { title, rules }), r2),
                        Err(e) => (Err(e), r2),
                    },
                }
            },
        }
    } else if argument == "--folder-rename"@ {
        let (f, r1) = folder_command(args, argument);
        match f {
            Err(e) => (Err(e), r1),
            Ok(folder) => {
                let (t, r2) = next_of(r1, argument);
                match t {
                    Err(e) => (Err(e), r2),
                    Ok(title) => (Ok(FolderMaintenanceModel::Rename { folder, title }), r2),
                }
            },
        }
    } else if argument == "--folder-reorder"@ {
        let (f, r1) = folder_command(args, argument);
        match f {
            Err(e) => (Err(e), r1),
            Ok(folder) => {
                let (v, r2) = next_of(r1, argument);
                match v {
                    Err(e) => (Err(e), r2),
                    Ok(value) => match position_of(argument, value) {
                        Ok(position) => (Ok(FolderMaintenanceModel::Reorder { folder, position }), r2),
                        Err(e) => (Err(e), r2),
                    },
                }
            },
        }
    } else if argument == "--folder-share"@ {
        let (f, r1) = folder_command(args, argument);
        match f {
            Err(e) => (Err(e), r1),
            Ok(folder) => (Ok(FolderMaintenanceModel::Share { folder }), r1),
        }
    } else if argument == "--folder-delete"@ {
        let (f, r1) = folder_command(args, argument);
        match f {
            Err(e) => (Err(e), r1),
            Ok(folder) => (Ok(FolderMaintenanceModel::Delete { folder }), r1),
        }
    } else if argument == "--folder-rules"@ {
        let (f, r1) = folder_command(args, argument);
        match f {
            Err(e) => (Err(e), r1),
            Ok(folder) => {
                let (v, r2) = next_of(r1, argument);
                match v {
                    Err(e) => (Err(e), r2),
                    Ok(value) => match rules_of(argument, value) {
                        Ok(rules) => (Ok(FolderMaintenanceModel::Rules { folder, rules }), r2),
                        Err(e) => (Err(e), r2),
                    },
                }
            },
        }
    } else {
        (Err(ArgumentErrorModel::UnknownArgument { argument }), args)
    }
}

pub open spec fn strings_view(v: Seq<String>) -> Seq<Seq<char>> {
    v.map_values(|s: String| s@)
}

pub fn next_argument(arguments: &mut Vec<String>, argument: &str) -> (r: Result<String, ArgumentError>)
    ensures
        (result_view(r), strings_view(final(arguments)@)) == next_of(strings_view(old(arguments)@), argument@),
{
    if arguments.len() == 0 {
        return Err(ArgumentError::MissingArgumentValue { argument: argument.to_owned() });
    }
    let ghost before = arguments@;
    let value = arguments.remove(0);
    proof {
        assert(strings_view(arguments@) =~= strings_view(before).drop_first());
    }
    Ok(value)
}

pub fn parse_folder_id(argument: &str, value: String) -> (r: Result<i32, ArgumentError>)
    ensures
        result_view(r) == folder_id_of(argument@, value@),
{
    match parse_i32(value.as_str()) {
        Some(folder) => if folder > 1 {
            Ok(folder)
        } else {
            Err(ArgumentError::InvalidArgumentValue { argument: argument.to_owned(), value })
        },
        None => Err(ArgumentError::InvalidArgumentValue { argument: argument.to_owned(), value }),
    }
}

pub fn parse_position(argument: &str, value: String) -> (r: Result<usize, ArgumentError>)
    ensures
        result_view(r) == position_of(argument@, value@),
{
    match parse_usize(value.as_str()) {
        Some(position) => Ok(position),
        None => Err(ArgumentError::InvalidArgumentValue { argument: argument.to_owned(), value }),
    }
}

/// The pieces of the text between commas.
fn comma_pieces(text: &str) -> (pieces: Vec<Vec<char>>)
    ensures
        pieces.deep_view() == split_commas(text@),
{
    let s = chars_of(text);
    let mut pieces: Vec<Vec<char>> = Vec::new();
    let mut current: Vec<char> = Vec::new();
    let mut i: usize = 0;
    proof {
        assert(s@.take(0) =~= Seq::<char>::empty());
        assert(current.deep_view() =~= Seq::<char>::empty());
        assert(pieces.deep_view().push(current.deep_view()) =~= split_commas(s@.take(0)));
    }
    while i < s.len()
        invariant
            s@ == text@,
            i <= s.len(),
            pieces.deep_view().push(current.deep_view()) == split_commas(s@.take(i as int)),
        decreases s.len() - i,
    {
        let c = s[i];
        let ghost before = pieces.deep_view();
        let ghost old_current = current.deep_view();
        proof {
            assert(s@.take(i as int + 1).drop_last() =~= s@.take(i as int));
            assert(s@.take(i as int + 1).last() == c);
        }
        if c == ',' {
            let finished = current;
            pieces.push(finished);
            current = Vec::new();
            proof {
                assert(pieces.deep_view() =~= before.push(old_current));
                assert(current.deep_view() =~= Seq::<char>::empty());
                assert(pieces.deep_view().push(current.deep_view()) =~= before.push(old_current).push(
                    Seq::empty(),
                ));
            }
        } else {
            current.push(c);
            proof {
                assert(current.deep_view() =~= old_current.push(c));
                let p = before.push(old_current);
                assert(p.update(p.len() - 1, p.last().push(c)) =~= before.push(current.deep_view()));
            }
        }
        i = i + 1;
    }
    proof {
        assert(s@.take(s.len() as int) =~= s@);
    }
    let ghost before = pieces.deep_view();
    let ghost last = current.deep_view();
    pieces.push(current);
    proof {
        assert(pieces.deep_view() =~= before.push(last));
    }
    pieces
}

fn same_chars(a: &Vec<char>, name: &str) -> (r: bool)
    ensures
        r == (a.deep_view() == name@),
{
    proof {
        assert(a.deep_view() =~= a@);
    }
    let b = chars_of(name);
    if a.len() != b.len() {
        proof {
            assert(a@.len() != b@.len());
        }
        return false;
    }
    let mut i: usize = 0;
    while i < a.len()
        invariant
            b@ == name@,
            a@.len() == b@.len(),
            i <= a.len(),
            forall|j: int| 0 <= j < i ==> a@[j] == b@[j],
        decreases a.len() - i,
    {
        if a[i] != b[i] {
            proof {
                assert(a@[i as int] != b@[i as int]);
            }
            return false;
        }
        i = i + 1;
    }
    proof {
        assert(a@ =~= b@);
    }
    true
}

/// The rules that `value` names, when every non-empty piece names one.
pub fn folder_rules(value: &str) -> (r: Option<FolderRules>)
    ensures
        r == folder_rules_of(value@),
{
    let pieces = comma_pieces(value);
    let ghost all = pieces.deep_view();
    let ghost p = nonempty_piece();
    let mut rules = FolderRules {
        contacts: false,
        non_contacts: false,
        groups: false,
        broadcasts: false,
        bots: false,
        exclude_muted: false,
        exclude_read: false,
        exclude_archived: false,
    };
    let mut i: usize = 0;
    while i < pieces.len()
        invariant
            all == pieces.deep_view(),
            all == split_commas(value@),
            p == nonempty_piece(),
            i <= pieces.len(),
            forall|j: int| 0 <= j < all.take(i as int).filter(p).len() ==> known_rule(
                #[trigger] all.take(i as int).filter(p)[j],
            ),
            rules.contacts == all.take(i as int).filter(p).contains("contacts"@),
            rules.non_contacts == all.take(i as int).filter(p).contains("non-contacts"@),
            rules.groups == all.take(i as int).filter(p).contains("groups"@),
            rules.broadcasts == all.take(i as int).filter(p).contains("channels"@),
            rules.bots == all.take(i as int).filter(p).contains("bots"@),
            rules.exclude_muted == all.take(i as int).filter(p).contains("exclude-muted"@),
            rules.exclude_read == all.take(i as int).filter(p).contains("exclude-read"@),
            rules.exclude_archived == all.take(i as int).filter(p).contains("exclude-archived"@),
        decreases pieces.len() - i,
    {
        let piece = &pieces[i];
        let ghost name = all[i as int];
        let ghost before = all.take(i as int).filter(p);
        proof {
            reveal_strlit("contacts");
            reveal_strlit("non-contacts");
            reveal_strlit("groups");
            reveal_strlit("channels");
            reveal_strlit("bots");
            reveal_strlit("exclude-muted");
            reveal_strlit("exclude-read");
            reveal_strlit("exclude-archived");
            assert("contacts"@ != "channels"@) by {
                assert("contacts"@[1] != "channels"@[1]);
            }
            assert("non-contacts"@ != "exclude-read"@) by {
                assert("non-contacts"@[0] != "exclude-read"@[0]);
            }
            assert(piece.deep_view() == name);
            assert(all.take(i as int + 1) =~= all.take(i as int).push(name));
            all.take(i as int).lemma_filter_push(name, p);
        }
        if piece.len() > 0 {
            let ghost after = before.push(name);
            proof {
                assert(all.take(i as int + 1).filter(p) == after);
                assert forall|x: Seq<char>| #[trigger] after.contains(x) == (before.contains(x) || x == name) by {
                    if after.contains(x) && x != name {
                        let k = choose|k: int| 0 <= k < after.len() && after[k] == x;
                        assert(before[k] == x);
                    }
                    if before.contains(x) {
                        let k = choose|k: int| 0 <= k < before.len() && before[k] == x;
                        assert(after[k] == x);
                    }
                    if x == name {
                        assert(after[after.len() - 1] == x);
                    }
                }
            }
            if same_chars(piece, "contacts") {
                rules.contacts = true;
            } else if same_chars(piece, "non-contacts") {
                rules.non_contacts = true;
            } else if same_chars(piece, "groups") {
                rules.groups = true;
            } else if same_chars(piece, "channels") {
                rules.broadcasts = true;
            } else if same_chars(piece, "bots") {
                rules.bots = true;
            } else if same_chars(piece, "exclude-muted") {
                rules.exclude_muted = true;
            } else if same_chars(piece, "exclude-read") {
                rules.exclude_read = true;
            } else if same_chars(piece, "exclude-archived") {
                rules.exclude_archived = true;
            } else {
                proof {
                    assert(!known_rule(name));
                    let names = all.filter(p);
                    assert(all =~= all.take(i as int + 1) + all.skip(i as int + 1));
                    Seq::filter_distributes_over_add(all.take(i as int + 1), all.skip(i as int + 1), p);
                    assert(names[before.len() as int] == name);
                }
                return None;
            }
        } else {
            proof {
                assert(all.take(i as int + 1).filter(p) == before);
            }
        }
        i = i + 1;
    }
    proof {
        assert(all.take(pieces.len() as int) =~= all);
    }
    Some(rules)
}

pub fn parse_folder_rules(argument: &str, value: String) -> (r: Result<FolderRules, ArgumentError>)
    ensures
        result_view(r) == rules_of(argument@, value@),
{
    match folder_rules(value.as_str()) {
        Some(rules) => Ok(rules),
        None => Err(ArgumentError::InvalidArgumentValue { argument: argument.to_owned(), value }),
    }
}

fn folder_id_argument(arguments: &mut Vec<String>, argument: &str) -> (r: Result<i32, ArgumentError>)
    ensures
        (result_view(r), strings_view(final(arguments)@)) == folder_command(strings_view(old(arguments)@), argument@),
{
    match next_argument(arguments, argument) {
        Err(e) => Err(e),
        Ok(value) => parse_folder_id(argument, value),
    }
}

/// The folder command that `argument` names, with the values it takes from `arguments`.
pub fn parse_folder_maintenance(arguments: &mut Vec<String>, argument: &str) -> (r: Result<
    FolderMaintenance,
    ArgumentError,
>)
    ensures
        (result_view(r), strings_view(final(arguments)@)) == folder_maintenance_of(
            strings_view(old(arguments)@),
            argument@,
        ),
{
    if same_text(argument, "--folder-create") {
        let title = match next_argument(arguments, argument) {
            Ok(t) => t,
            Err(e) => return Err(e),
        };
        let value = match next_argument(arguments, argument) {
            Ok(v) => v,
            Err(e) => return Err(e),
        };
        match parse_folder_rules(argument, value) {
            Ok(rules) => Ok(FolderMaintenance::Create { title, rules }),
            Err(e) => Err(e),
        }
    } else if same_text(argument, "--folder-rename") {
        let folder = match folder_id_argument(arguments, argument) {
            Ok(f) => f,
            Err(e) => return Err(e),
        };
        match next_argument(arguments, argument) {
            Ok(title) => Ok(FolderMaintenance::Rename { folder, title }),
            Err(e) => Err(e),
        }
    } else if same_text(argument, "--folder-reorder") {
        let folder = match folder_id_argument(arguments, argument) {
            Ok(f) => f,
            Err(e) => return Err(e),
        };
        let value = match next_argument(arguments, argument) {
            Ok(v) => v,
            Err(e) => return Err(e),
        };
        match parse_position(argument, value) {
            Ok(position) => Ok(FolderMaintenance::Reorder { folder, position }),
            Err(e) => Err(e),
        }
    } else if same_text(argument, "--folder-share") {
        match folder_id_argument(arguments, argument) {
            Ok(folder) => Ok(FolderMaintenance::Share { folder }),
            Err(e) => Err(e),
        }
    } else if same_text(argument, "--folder-delete") {
        match folder_id_argument(arguments, argument) {
            Ok(folder) => Ok(FolderMaintenance::Delete { folder }),
            Err(e) => Err(e),
        }
    } else if same_text(argument, "--folder-rules") {
        let folder = match folder_id_argument(arguments, argument) {
            Ok(f) => f,
            Err(e) => return Err(e),
        };
        let value = match next_argument(arguments, argument) {
            Ok(v) => v,
            Err(e) => return Err(e),
        };
        match parse_folder_rules(argument, value) {
            Ok(rules) => Ok(FolderMaintenance::Rules { folder, rules }),
            Err(e) => Err(e),
        }
    } else {
        Err(ArgumentError::UnknownArgument { argument: argument.to_owned() })
    }
}

/// What the user types to confirm that a folder is deleted.
pub open spec fn deletion_phrase_text(folder: i32) -> Seq<char> {
    "DELETE FOLDER "@ + decimal_text(folder as int)
}

/// The phrase that confirms the deletion of `folder`.
pub fn deletion_phrase(folder: i32) -> (phrase: String)
    ensures
        phrase@ == deletion_phrase_text(folder),
{
    let mut phrase = String::from_str("DELETE FOLDER ");
    push_decimal(&mut phrase, folder as i64);
    phrase
}

/// The folder is deleted only when the user typed its confirmation phrase exactly.
pub fn confirms_deletion(typed: &String, folder: i32) -> (r: bool)
    ensures
        r == (typed@ == deletion_phrase_text(folder)),
{
    let phrase = deletion_phrase(folder);
    *typed == phrase
}

} // verus!
