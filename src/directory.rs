use vstd::prelude::*;
use crate::casefold::{lower_of, lowercase, upper_of, uppercase};
use crate::tokens::{lemma_split_nonempty, split_on_space, texts_of};

verus! {

/// A department of the company. `NOTHING` is what an unrecognised
/// department name resolves to; it never holds members.
#[derive(PartialEq, Eq, Structural, Clone, Copy, Debug, Hash)]
pub enum Department {
    ENGINEERING,
    SALES,
    NOTHING,
}

/// How a command that raised no error ended.
#[derive(PartialEq, Eq, Structural, Clone, Copy, Debug)]
pub enum Outcome {
    /// A name was appended to a department.
    Added,
    /// The command was not an "Add ... to ..." command; nothing changed.
    Ignored,
}

/// Why a command or a query failed. A failure never changes the directory.
#[derive(PartialEq, Eq, Structural, Clone, Copy, Debug)]
pub enum DirectoryError {
    /// An "Add" command with fewer than four tokens.
    MalformedCommand,
    /// The department token of an "Add ... to ..." command names no department.
    UnrecognizedDepartment,
    /// A listing was asked of a department that the directory does not keep.
    UnknownDepartment,
}

/// The department that a lower-cased department token names.
pub open spec fn department_named(lower: Seq<char>) -> Department {
    if lower == "engineering"@ {
        Department::ENGINEERING
    } else if lower == "sales"@ {
        Department::SALES
    } else {
        Department::NOTHING
    }
}

/// A new directory: Engineering and Sales, both empty, and no other department.
pub open spec fn fresh_directory() -> Map<Department, Seq<Seq<char>>> {
    map![Department::ENGINEERING => Seq::<Seq<char>>::empty(), Department::SALES => Seq::<Seq<char>>::empty()]
}

/// What a command does to the directory `dir`, given its tokens, its verb
/// (first token) upper-cased, its connector (third token) upper-cased and its
/// department (fourth token) lower-cased. The second token is the name.
pub open spec fn command_step(
    dir: Map<Department, Seq<Seq<char>>>,
    tokens: Seq<Seq<char>>,
    verb: Seq<char>,
    connector: Seq<char>,
    department: Seq<char>,
) -> (Result<Outcome, DirectoryError>, Map<Department, Seq<Seq<char>>>) {
    if verb != "ADD"@ {
        (Ok(Outcome::Ignored), dir)
    } else if tokens.len() < 4 {
        (Err(DirectoryError::MalformedCommand), dir)
    } else if connector != "TO"@ {
        (Ok(Outcome::Ignored), dir)
    } else if !dir.contains_key(department_named(department)) {
        (Err(DirectoryError::UnrecognizedDepartment), dir)
    } else {
        let d = department_named(department);
        (Ok(Outcome::Added), dir.insert(d, dir[d].push(tokens[1])))
    }
}

/// What the command `text` does to the directory `dir`: its tokens, with
/// verb and connector upper-cased and department lower-cased, go to
/// `command_step`. Tokens that the command lacks are read as empty.
pub open spec fn command_effect(dir: Map<Department, Seq<Seq<char>>>, text: Seq<char>) -> (
    Result<Outcome, DirectoryError>,
    Map<Department, Seq<Seq<char>>>,
) {
    let t = split_on_space(text);
    command_step(
        dir,
        t,
        upper_of(t[0]),
        if t.len() >= 3 { upper_of(t[2]) } else { Seq::<char>::empty() },
        if t.len() >= 4 { lower_of(t[3]) } else { Seq::<char>::empty() },
    )
}

/// The company's directory: for each department that it keeps, the names
/// filed under it, in the order they were added.
pub struct Company {
    engineering: Vec<String>,
    sales: Vec<String>,
}

impl View for Company {
    type V = Map<Department, Seq<Seq<char>>>;

    closed spec fn view(&self) -> Map<Department, Seq<Seq<char>>> {
        map![Department::ENGINEERING => texts_of(self.engineering@), Department::SALES => texts_of(self.sales@)]
    }
}

impl Department {
    /// The department that an already lower-cased department token names;
    /// `NOTHING` for any other text.
    pub fn from_lowercase(lower: &String) -> (r: Department)
        ensures
            r == department_named(lower@),
    {
        if *lower == "engineering".to_owned() {
            Department::ENGINEERING
        } else if *lower == "sales".to_owned() {
            Department::SALES
        } else {
            Department::NOTHING
        }
    }
}

impl Company {
    /// A directory with empty Engineering and Sales lists.
    pub fn new() -> (r: Company)
        ensures
            r@ == fresh_directory(),
    {
        let r = Company { engineering: Vec::new(), sales: Vec::new() };
        assert(texts_of(r.engineering@) =~= Seq::<Seq<char>>::empty());
        assert(texts_of(r.sales@) =~= Seq::<Seq<char>>::empty());
        r
    }

    /// Carries out a command already split into `tokens`, given its verb
    /// upper-cased, its connector upper-cased and its department lower-cased.
    pub fn process_tokens(
        &mut self,
        tokens: &Vec<String>,
        verb: &String,
        connector: &String,
        department: &String,
    ) -> (r: Result<Outcome, DirectoryError>)
        ensures
            (r, final(self)@) == command_step(
                old(self)@,
                texts_of(tokens@),
                verb@,
                connector@,
                department@,
            ),
    {
        if *verb != "ADD".to_owned() {
            return Ok(Outcome::Ignored);
        }
        if tokens.len() < 4 {
            return Err(DirectoryError::MalformedCommand);
        }
        if *connector != "TO".to_owned() {
            return Ok(Outcome::Ignored);
        }
        let name = tokens[1].clone();
        let ghost before = self@;
        match Department::from_lowercase(department) {
            Department::ENGINEERING => {
                self.engineering.push(name);
                assert(texts_of(self.engineering@) =~= before[Department::ENGINEERING].push(name@));
            },
            Department::SALES => {
                self.sales.push(name);
                assert(texts_of(self.sales@) =~= before[Department::SALES].push(name@));
            },
            Department::NOTHING => {
                return Err(DirectoryError::UnrecognizedDepartment);
            },
        }
        assert(self@ =~= command_step(before, texts_of(tokens@), verb@, connector@, department@).1);
        Ok(Outcome::Added)
    }

    /// Carries out the command `text`. "Add <name> to <department>", with the
    /// verb, "to" and the department matched regardless of case, appends the
    /// name to that department; any other verb, or another third word, is
    /// ignored. An "Add" with fewer than four tokens, or naming no known
    /// department, fails and changes nothing.
    pub fn process_command(&mut self, text: &str) -> (r: Result<Outcome, DirectoryError>)
        ensures
            (r, final(self)@) == command_effect(old(self)@, text@),
    {
        let tokens = Company::tokenize(&text.to_owned());
        proof {
            lemma_split_nonempty(text@);
        }
        let verb = uppercase(tokens[0].as_str());
        let connector = if tokens.len() >= 3 {
            uppercase(tokens[2].as_str())
        } else {
            String::new()
        };
        let department = if tokens.len() >= 4 {
            lowercase(tokens[3].as_str())
        } else {
            String::new()
        };
        self.process_tokens(&tokens, &verb, &connector, &department)
    }

    /// The names filed under `dep`, in the order they were added, as a copy.
    /// Fails for a department that the directory does not keep.
    pub fn get_list_of_department_people(&self, dep: Department) -> (r: Result<
        Vec<String>,
        DirectoryError,
    >)
        ensures
            match r {
                Ok(v) => self@.contains_key(dep) && texts_of(v@) == self@[dep],
                Err(e) => !self@.contains_key(dep) && e == DirectoryError::UnknownDepartment,
            },
    {
        match dep {
            Department::ENGINEERING => Ok(self.engineering.clone()),
            Department::SALES => Ok(self.sales.clone()),
            Department::NOTHING => Err(DirectoryError::UnknownDepartment),
        }
    }

    /// Splits `text` on every space character. Adjacent spaces, and a space at
    /// either end, give empty tokens; a text without spaces is one token.
    pub fn tokenize(text: &String) -> (r: Vec<String>)
        ensures
            texts_of(r@) == split_on_space(text@),
    {
        let s: &str = text.as_str();
        let mut result: Vec<String> = Vec::new();
        let mut start: usize = 0;
        let mut count: usize = 0;
        // The character count fits in a usize, so counting up to it cannot overflow.
        let n: usize = s.unicode_len();
        assert(s@.subrange(0, 0) =~= Seq::<char>::empty());
        assert(texts_of(result@) =~= Seq::<Seq<char>>::empty());
        for c in it: s.chars()
            invariant
                it.seq() == s@,
                count == it.index(),
                n == s@.len(),
                start <= count <= s@.len(),
                split_on_space(s@.subrange(0, count as int)) == texts_of(result@).push(
                    s@.subrange(start as int, count as int),
                ),
        {
            let ghost before = s@.subrange(0, count as int);
            count = count + 1;
            assert(s@.subrange(0, count as int).drop_last() =~= before);
            if c == ' ' {
                let ghost prev = result@;
                let item = s.substring_char(start, count - 1).to_owned();
                result.push(item);
                start = count;
                assert(texts_of(result@) =~= texts_of(prev).push(item@));
                assert(s@.subrange(start as int, count as int) =~= Seq::<char>::empty());
            } else {
                assert(s@.subrange(start as int, count as int) =~= s@.subrange(
                    start as int,
                    count - 1,
                ).push(c));
            }
        }
        let item = s.substring_char(start, count).to_owned();
        let ghost prev = result@;
        result.push(item);
        assert(s@.subrange(0, count as int) =~= s@);
        assert(texts_of(result@) =~= texts_of(prev).push(item@));
        result
    }
}

} // verus!
