use vstd::prelude::*;
use crate::casefold::lower_of;
use crate::directory::{
    command_effect, command_step, department_named, fresh_directory, Department, DirectoryError,
    Outcome,
};
use crate::tokens::{
    has_no_space, lemma_no_space_single_token, lemma_split_append_word, split_on_space,
};

verus! {

/// The lower-case text that names a department kept by the directory.
pub open spec fn department_text(d: Department) -> Seq<char> {
    match d {
        Department::ENGINEERING => "engineering"@,
        Department::SALES => "sales"@,
        Department::NOTHING => Seq::<char>::empty(),
    }
}

/// The command "Add <name> to <department>".
pub open spec fn add_command(name: Seq<char>, department: Seq<char>) -> Seq<char> {
    "Add"@ + seq![' '] + name + seq![' '] + "to"@ + seq![' '] + department
}

/// On a new directory, "Add <name> to <department>" for a name without
/// spaces and for Engineering or Sales splits into its four words; with the
/// verb read as ADD and "to" as TO it succeeds, that department then holds
/// just the name, and the other department stays empty.
pub proof fn lemma_add_to_fresh(name: Seq<char>, d: Department)
    requires
        has_no_space(name),
        d != Department::NOTHING,
    ensures
        split_on_space(add_command(name, department_text(d))) == seq![
            "Add"@,
            name,
            "to"@,
            department_text(d),
        ],
        command_step(
            fresh_directory(),
            seq!["Add"@, name, "to"@, department_text(d)],
            "ADD"@,
            "TO"@,
            department_text(d),
        ) == (Ok::<Outcome, DirectoryError>(Outcome::Added), fresh_directory().insert(d, seq![name])),
{
    reveal_strlit("Add");
    reveal_strlit("to");
    reveal_strlit("engineering");
    reveal_strlit("sales");
    let dt = department_text(d);
    assert(has_no_space("Add"@));
    assert(has_no_space("to"@));
    assert(has_no_space(dt));
    assert("engineering"@.len() != "sales"@.len());
    assert(department_named(dt) == d);
    lemma_no_space_single_token("Add"@);
    lemma_split_append_word("Add"@, name);
    lemma_split_append_word("Add"@ + seq![' '] + name, "to"@);
    lemma_split_append_word("Add"@ + seq![' '] + name + seq![' '] + "to"@, dt);
    assert(seq!["Add"@].push(name).push("to"@).push(dt) =~= seq!["Add"@, name, "to"@, dt]);
    let f = fresh_directory();
    assert(f[d] =~= Seq::<Seq<char>>::empty());
    assert(f[d].push(name) =~= seq![name]);
}

/// Two "Add" commands into one department, one after the other, both
/// succeed and append their names there in the order given, whether or not
/// the names are equal; no other department changes.
pub proof fn lemma_adds_in_order(
    dir: Map<Department, Seq<Seq<char>>>,
    first: Seq<Seq<char>>,
    second: Seq<Seq<char>>,
    department: Seq<char>,
)
    requires
        first.len() >= 4,
        second.len() >= 4,
        dir.contains_key(department_named(department)),
    ensures
        command_step(dir, first, "ADD"@, "TO"@, department).0 == Ok::<Outcome, DirectoryError>(Outcome::Added),
        command_step(
            command_step(dir, first, "ADD"@, "TO"@, department).1,
            second,
            "ADD"@,
            "TO"@,
            department,
        ) == (Ok::<Outcome, DirectoryError>(Outcome::Added), dir.insert(
            department_named(department),
            dir[department_named(department)] + seq![first[1], second[1]],
        )),
{
    let d = department_named(department);
    assert(dir[d].push(first[1]).push(second[1]) =~= dir[d] + seq![first[1], second[1]]);
    assert(dir.insert(d, dir[d].push(first[1])).insert(d, dir[d].push(first[1]).push(second[1]))
        =~= dir.insert(d, dir[d] + seq![first[1], second[1]]));
}

/// The same "Add" command carried out twice files its name twice.
pub proof fn lemma_add_twice_files_twice(
    dir: Map<Department, Seq<Seq<char>>>,
    tokens: Seq<Seq<char>>,
    department: Seq<char>,
)
    requires
        tokens.len() >= 4,
        dir.contains_key(department_named(department)),
    ensures
        command_step(
            command_step(dir, tokens, "ADD"@, "TO"@, department).1,
            tokens,
            "ADD"@,
            "TO"@,
            department,
        ).1[department_named(department)] == dir[department_named(department)] + seq![
            tokens[1],
            tokens[1],
        ],
{
    lemma_adds_in_order(dir, tokens, tokens, department);
}

/// "Add" commands into two different departments each append their name to
/// their own department only.
pub proof fn lemma_adds_independent(
    dir: Map<Department, Seq<Seq<char>>>,
    first: Seq<Seq<char>>,
    second: Seq<Seq<char>>,
    first_department: Seq<char>,
    second_department: Seq<char>,
)
    requires
        first.len() >= 4,
        second.len() >= 4,
        dir.contains_key(department_named(first_department)),
        dir.contains_key(department_named(second_department)),
        department_named(first_department) != department_named(second_department),
    ensures
        ({
            let after = command_step(
                command_step(dir, first, "ADD"@, "TO"@, first_department).1,
                second,
                "ADD"@,
                "TO"@,
                second_department,
            ).1;
            &&& after.dom() == dir.dom()
            &&& after[department_named(first_department)] == dir[department_named(
                first_department,
            )].push(first[1])
            &&& after[department_named(second_department)] == dir[department_named(
                second_department,
            )].push(second[1])
            &&& forall|k: Department|
                dir.contains_key(k) && k != department_named(first_department) && k
                    != department_named(second_department) ==> #[trigger] after[k] == dir[k]
        }),
{
    let after = command_step(
        command_step(dir, first, "ADD"@, "TO"@, first_department).1,
        second,
        "ADD"@,
        "TO"@,
        second_department,
    ).1;
    assert(after.dom() =~= dir.dom());
}

/// Whatever the command: the set of departments kept does not change; a
/// command that does not end in `Added` changes nothing; one that does
/// appends its second token to exactly one department.
pub proof fn lemma_command_shape(dir: Map<Department, Seq<Seq<char>>>, text: Seq<char>)
    ensures
        command_effect(dir, text).1.dom() == dir.dom(),
        command_effect(dir, text).0 != Ok::<Outcome, DirectoryError>(Outcome::Added) ==> command_effect(dir, text).1 == dir,
        command_effect(dir, text).0 == Ok::<Outcome, DirectoryError>(Outcome::Added) ==> exists|d: Department|
            dir.contains_key(d) && #[trigger] command_effect(dir, text).1 == dir.insert(
                d,
                dir[d].push(split_on_space(text)[1]),
            ),
{
    let t = split_on_space(text);
    let after = command_effect(dir, text).1;
    assert(after.dom() =~= dir.dom());
    if command_effect(dir, text).0 == Ok::<Outcome, DirectoryError>(Outcome::Added) {
        let d = department_named(lower_of(t[3]));
        assert(dir.contains_key(d) && after == dir.insert(d, dir[d].push(t[1])));
    }
}

} // verus!
