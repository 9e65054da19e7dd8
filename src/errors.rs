use vstd::prelude::*;

verus! {

/// A failure reported by one crawl or validation task, or the combination of several.
#[derive(Debug)]
pub enum Error {
    /// A directory could not be listed, or one of its entries could not be read.
    Traversal { path: String, message: String },
    /// The validator reported a failure for a directory.
    Validation { path: String, message: String },
    /// Two or more failures, each kept as its rendered message.
    Aggregate { messages: Vec<String> },
}

/// The text of each string.
pub open spec fn texts(strings: Seq<String>) -> Seq<Seq<char>> {
    strings.map_values(|m: String| m@)
}

/// The rendered message of each error.
pub open spec fn messages_of(errors: Seq<Error>) -> Seq<Seq<char>> {
    errors.map_values(|e: Error| e.message_of())
}

/// The messages joined with `", "` between neighbours.
pub open spec fn joined(messages: Seq<Seq<char>>) -> Seq<char>
    decreases messages.len(),
{
    if messages.len() == 0 {
        Seq::empty()
    } else if messages.len() == 1 {
        messages[0]
    } else {
        joined(messages.drop_last()) + ", "@ + messages.last()
    }
}

/// The text of a combination of the given rendered messages.
pub open spec fn combined(messages: Seq<Seq<char>>) -> Seq<char> {
    "Errors: "@ + joined(messages)
}

/// `needle` occurs in `hay` as a contiguous part.
pub open spec fn contains(hay: Seq<char>, needle: Seq<char>) -> bool {
    exists|k: int|
        0 <= k && k + needle.len() <= hay.len() && #[trigger] hay.subrange(k, k + needle.len())
            == needle
}

impl Error {
    /// The rendered message of an error.
    pub open spec fn message_of(self) -> Seq<char> {
        match self {
            Error::Traversal { path, message } => "failed to crawl "@ + path@ + ": "@ + message@,
            Error::Validation { path, message } => "failed to validate "@ + path@ + ": "@
                + message@,
            Error::Aggregate { messages } => combined(texts(messages@)),
        }
    }

    /// Renders the error as text.
    pub fn message(&self) -> (r: String)
        ensures
            r@ == self.message_of(),
    {
        match self {
            Error::Traversal { path, message } => {
                let r = String::from_str("failed to crawl ");
                let r = r.concat(path.as_str());
                let r = r.concat(": ");
                r.concat(message.as_str())
            },
            Error::Validation { path, message } => {
                let r = String::from_str("failed to validate ");
                let r = r.concat(path.as_str());
                let r = r.concat(": ");
                r.concat(message.as_str())
            },
            Error::Aggregate { messages } => {
                let j = join_messages(messages);
                let r = String::from_str("Errors: ");
                r.concat(j.as_str())
            },
        }
    }
}

/// Joins the messages with `", "` between neighbours.
fn join_messages(messages: &Vec<String>) -> (r: String)
    ensures
        r@ == joined(texts(messages@)),
{
    let ghost views = texts(messages@);
    let mut r = String::new();
    let mut i: usize = 0;
    while i < messages.len()
        invariant
            i <= messages@.len(),
            views == texts(messages@),
            r@ == joined(views.subrange(0, i as int)),
        decreases messages@.len() - i,
    {
        assert(views.subrange(0, i + 1).drop_last() =~= views.subrange(0, i as int));
        if i > 0 {
            r.append(", ");
        }
        r.append(messages[i].as_str());
        i = i + 1;
    }
    assert(views.subrange(0, i as int) =~= views);
    r
}

/// `r` is the aggregated outcome of `errors`: success when there are none, the error itself
/// when there is one, and one combined error that renders every message when there are more.
pub open spec fn aggregates(errors: Seq<Error>, r: Result<(), Error>) -> bool {
    if errors.len() == 0 {
        r is Ok
    } else if errors.len() == 1 {
        r == Err::<(), Error>(errors[0])
    } else {
        match r {
            Err(Error::Aggregate { messages }) => texts(messages@)
                == messages_of(errors),
            _ => false,
        }
    }
}

/// Folds the errors collected from every task into one outcome.
pub fn join(errors: Vec<Error>) -> (r: Result<(), Error>)
    ensures
        aggregates(errors@, r),
{
    let mut errors = errors;
    if errors.len() == 0 {
        return Ok(());
    }
    if errors.len() == 1 {
        let a = errors.pop().unwrap();
        return Err(a);
    }
    let ghost original = errors@;
    let mut messages: Vec<String> = Vec::new();
    let mut i: usize = 0;
    while i < errors.len()
        invariant
            errors@ == original,
            i <= errors@.len(),
            messages@.len() == i,
            texts(messages@) == messages_of(original.subrange(0, i as int)),
        decreases errors@.len() - i,
    {
        let m = errors[i].message();
        let ghost before = messages@;
        messages.push(m);
        assert(messages@ == before.push(m));
        assert(m@ == original[i as int].message_of());
        assert forall|k: int| 0 <= k < i + 1 implies #[trigger] texts(messages@)[k]
            == messages_of(original.subrange(0, i + 1))[k] by {
            if k < i {
                assert(texts(before)[k] == messages_of(original.subrange(0, i as int))[k]);
            }
        }
        assert(texts(messages@) =~= messages_of(original.subrange(0, i + 1)));
        i = i + 1;
    }
    assert(original.subrange(0, i as int) =~= original);
    Err(Error::Aggregate { messages })
}

/// Every message of a non-empty list occurs in the list joined.
proof fn lemma_joined_contains(messages: Seq<Seq<char>>, i: int)
    requires
        0 <= i < messages.len(),
    ensures
        contains(joined(messages), messages[i]),
    decreases messages.len(),
{
    let m = messages[i];
    if messages.len() == 1 {
        assert(joined(messages) == m);
        let k: int = 0;
        assert(joined(messages).subrange(k, k + m.len()) =~= m);
    } else {
        let prefix = joined(messages.drop_last());
        if i == messages.len() - 1 {
            let k: int = prefix.len() + ", "@.len() as int;
            assert(joined(messages).subrange(k, k + m.len()) =~= m);
        } else {
            lemma_joined_contains(messages.drop_last(), i);
            let k = choose|k: int|
                0 <= k && k + m.len() <= prefix.len() && #[trigger] prefix.subrange(k, k + m.len())
                    == m;
            assert(joined(messages).subrange(k, k + m.len()) =~= prefix.subrange(k, k + m.len()));
        }
    }
}

/// When two or more errors are aggregated, the outcome is one error whose rendered message
/// contains the rendered message of every individual error.
pub proof fn lemma_combined_error_renders_every_message(
    errors: Seq<Error>,
    r: Result<(), Error>,
    i: int,
)
    requires
        errors.len() >= 2,
        aggregates(errors, r),
        0 <= i < errors.len(),
    ensures
        r is Err,
        contains(r->Err_0.message_of(), errors[i].message_of()),
{
    let ms = messages_of(errors);
    assert(ms[i] == errors[i].message_of());
    lemma_joined_contains(ms, i);
    let m = ms[i];
    let k = choose|k: int|
        0 <= k && k + m.len() <= joined(ms).len() && #[trigger] joined(ms).subrange(k, k + m.len())
            == m;
    let h: int = "Errors: "@.len() as int + k;
    assert(combined(ms).subrange(h, h + m.len()) =~= joined(ms).subrange(k, k + m.len()));
}

/// With no errors the outcome is success; with exactly one it is that error itself.
pub proof fn lemma_outcome_of_few_errors(errors: Seq<Error>, r: Result<(), Error>)
    requires
        errors.len() <= 1,
        aggregates(errors, r),
    ensures
        errors.len() == 0 <==> r is Ok,
        errors.len() == 1 ==> r == Err::<(), Error>(errors[0]),
{
}

} // verus!
