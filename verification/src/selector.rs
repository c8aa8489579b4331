//! Choosing one sheet of a workbook, by position or by name.

use crate::text::{
    append_decimal, decimal, join, join_text, lemma_join_holds_each_part, occurs_in, parse_index,
    parsed_index,
};
use vstd::prelude::*;
use vstd::string::*;

verus! {

/// Select sheet by id or by name.
#[derive(Debug)]
pub enum SheetSelector {
    /// The sheet at this position, counted from zero.
    ById(usize),
    /// The sheet with exactly this name.
    ByName(String),
}

impl Clone for SheetSelector {
    fn clone(&self) -> (copy: Self)
        ensures
            copy == *self,
    {
        match self {
            SheetSelector::ById(id) => SheetSelector::ById(*id),
            SheetSelector::ByName(name) => SheetSelector::ByName(name.clone()),
        }
    }
}

/// What a selector says, with the name as a sequence of characters.
pub enum SelectorView {
    ById(usize),
    ByName(Seq<char>),
}

impl View for SheetSelector {
    type V = SelectorView;

    open spec fn view(&self) -> SelectorView {
        match self {
            SheetSelector::ById(id) => SelectorView::ById(*id),
            SheetSelector::ByName(name) => SelectorView::ByName(name@),
        }
    }
}

/// The complaint about an id at or beyond the number of sheets.
pub open spec fn id_out_of_range_message(id: nat, available: nat) -> Seq<char> {
    "sheet id `"@ + decimal(id) + "` is not valid - only **"@ + decimal(available)
        + "** sheets avaliable!"@
}

/// The complaint about a name that no sheet has; it lists the names that
/// there are.
pub open spec fn name_not_found_message(name: Seq<char>, names: Seq<Seq<char>>) -> Seq<char> {
    "sheet name `"@ + name + "` is not in ("@ + join(names, ", "@) + ")"@
}

/// The selector that a command-line word stands for: an id where the word
/// reads as an index, else the word itself as a name.
pub open spec fn selector_of(word: Seq<char>) -> SelectorView {
    match parsed_index(word) {
        Some(id) => SelectorView::ById(id),
        None => SelectorView::ByName(word),
    }
}

impl SelectorView {
    /// The sheet name that the selector picks among `names`, or the
    /// complaint where it picks none.
    pub open spec fn resolve(self, names: Seq<Seq<char>>) -> Result<Seq<char>, Seq<char>> {
        match self {
            SelectorView::ById(id) => if id < names.len() {
                Ok(names[id as int])
            } else {
                Err(id_out_of_range_message(id as nat, names.len()))
            },
            SelectorView::ByName(name) => if names.contains(name) {
                Ok(name)
            } else {
                Err(name_not_found_message(name, names))
            },
        }
    }
}

/// Whether `at` is the first position among `names` that holds `wanted`.
pub open spec fn is_first_of(names: Seq<Seq<char>>, wanted: Seq<char>, at: int) -> bool {
    &&& 0 <= at < names.len()
    &&& names[at] == wanted
    &&& forall|j: int| 0 <= j < at ==> names[j] != wanted
}

/// The outcome of a lookup, with its texts as sequences of characters.
pub open spec fn lookup_view(found: Result<&String, String>) -> Result<Seq<char>, Seq<char>> {
    match found {
        Ok(name) => Ok(name@),
        Err(message) => Err(message@),
    }
}

impl SheetSelector {
    /// Looks the selected sheet up among the names of a workbook. An id
    /// picks the name at that position; a name picks the first sheet that
    /// has exactly that name.
    pub fn find_in<'a>(&self, sheetnames: &'a [String]) -> (found: Result<&'a String, String>)
        ensures
            lookup_view(found) == self@.resolve(sheetnames.deep_view()),
            found matches Ok(name) ==> (self matches SheetSelector::ById(id) ==> *name
                == sheetnames@[id as int]),
            found matches Ok(name) ==> (self matches SheetSelector::ByName(wanted)
                ==> exists|at: int|
                #![trigger sheetnames@[at]]
                is_first_of(sheetnames.deep_view(), wanted@, at) && *name == sheetnames@[at]),
    {
        match self {
            SheetSelector::ById(id) => {
                if *id >= sheetnames.len() {
                    let mut message = String::from_str("sheet id `");
                    append_decimal(&mut message, *id as u64);
                    message.append("` is not valid - only **");
                    append_decimal(&mut message, sheetnames.len() as u64);
                    message.append("** sheets avaliable!");
                    Err(message)
                } else {
                    Ok(&sheetnames[*id])
                }
            },
            SheetSelector::ByName(name) => {
                let ghost names = sheetnames.deep_view();
                let mut i: usize = 0;
                while i < sheetnames.len()
                    invariant
                        i <= sheetnames.len(),
                        names == sheetnames.deep_view(),
                        *self == SheetSelector::ByName(*name),
                        forall|j: int| 0 <= j < i ==> names[j] != name@,
                    decreases sheetnames.len() - i,
                {
                    if sheetnames[i] == *name {
                        assert(names[i as int] == name@);
                        return Ok(&sheetnames[i]);
                    }
                    i += 1;
                }
                let listed = join_text(sheetnames, ", ");
                let mut message = String::from_str("sheet name `");
                message.append(name.as_str());
                message.append("` is not in (");
                message.append(listed.as_str());
                message.append(")");
                Err(message)
            },
        }
    }

    /// Reads a selector from a command-line word. A word that reads as an
    /// index is an id, so a sheet whose name is such a word can only be
    /// selected by its position.
    pub fn from_str(word: &str) -> (parsed: Result<SheetSelector, String>)
        ensures
            parsed matches Ok(selector) && selector@ == selector_of(word@),
    {
        match parse_index(word) {
            Some(id) => Ok(SheetSelector::ById(id)),
            None => Ok(SheetSelector::ByName(String::from_str(word))),
        }
    }
}

impl std::str::FromStr for SheetSelector {
    type Err = String;

    fn from_str(word: &str) -> (parsed: Result<Self, Self::Err>)
        ensures
            parsed matches Ok(selector) && selector@ == selector_of(word@),
    {
        SheetSelector::from_str(word)
    }
}

/// An id below the number of sheets picks the name at that position; any
/// other id picks none and is answered with the out-of-range complaint.
pub proof fn lemma_id_resolves_by_position(id: usize, names: Seq<Seq<char>>)
    ensures
        id < names.len() ==> SelectorView::ById(id).resolve(names) == Ok::<
            Seq<char>,
            Seq<char>,
        >(names[id as int]),
        id >= names.len() ==> SelectorView::ById(id).resolve(names) == Err::<
            Seq<char>,
            Seq<char>,
        >(id_out_of_range_message(id as nat, names.len())),
{
}

/// A name that some sheet has picks itself; a name that no sheet has picks
/// none, and the complaint then holds the name of every sheet there is.
pub proof fn lemma_name_resolves_verbatim(name: Seq<char>, names: Seq<Seq<char>>)
    ensures
        names.contains(name) ==> SelectorView::ByName(name).resolve(names) == Ok::<
            Seq<char>,
            Seq<char>,
        >(name),
        !names.contains(name) ==> SelectorView::ByName(name).resolve(names) == Err::<
            Seq<char>,
            Seq<char>,
        >(name_not_found_message(name, names)),
        forall|i: int|
            0 <= i < names.len() ==> occurs_in(
                #[trigger] names[i],
                name_not_found_message(name, names),
            ),
{
    let message = name_not_found_message(name, names);
    let listed = join(names, ", "@);
    let head = "sheet name `"@ + name + "` is not in ("@;
    assert forall|i: int| 0 <= i < names.len() implies occurs_in(
        #[trigger] names[i],
        message,
    ) by {
        lemma_join_holds_each_part(names, ", "@, i);
        let part = names[i];
        let at = choose|at: int|
            0 <= at && at + part.len() <= listed.len() && #[trigger] listed.subrange(
                at,
                at + part.len(),
            ) == part;
        let shifted = head.len() + at;
        assert(message.subrange(shifted, shifted + part.len()) =~= listed.subrange(
            at,
            at + part.len(),
        ));
    }
}

} // verus!
