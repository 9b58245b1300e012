use crate::secret::AppSecret;
use vstd::prelude::*;

verus! {

/// The configuration file written when no other is named.
pub const ENV_FILE_PATH: &'static str = ".env";

/// The key under which the secret is stored when no other is named.
pub const SECRET_KEY_NAME: &'static str = "APP_SECRET";

/// The text of each line, in order.
pub open spec fn line_texts(lines: Seq<String>) -> Seq<Seq<char>> {
    lines.map_values(|l: String| l@)
}

/// `p` is a prefix of `s`.
pub open spec fn has_prefix(s: Seq<char>, p: Seq<char>) -> bool {
    p.len() <= s.len() && s.take(p.len() as int) == p
}

/// A line that holds an entry for `key`: it begins with `key` and `=`.
pub open spec fn is_entry_of(line: Seq<char>, key: Seq<char>) -> bool {
    has_prefix(line, key.push('='))
}

/// The line `key=value`.
pub open spec fn entry_line(key: Seq<char>, value: Seq<char>) -> Seq<char> {
    key.push('=') + value
}

/// Line `i` is the first entry for `key`.
pub open spec fn is_first_entry(lines: Seq<Seq<char>>, key: Seq<char>, i: int) -> bool {
    &&& 0 <= i < lines.len()
    &&& is_entry_of(lines[i], key)
    &&& forall|j: int| 0 <= j < i ==> !is_entry_of(#[trigger] lines[j], key)
}

/// Some line holds an entry for `key`.
pub open spec fn has_entry(lines: Seq<Seq<char>>, key: Seq<char>) -> bool {
    exists|i: int| 0 <= i < lines.len() && is_entry_of(#[trigger] lines[i], key)
}

/// `lines` followed by `key=value`, after a blank separator line where the
/// last line is not blank already.
pub open spec fn appended(lines: Seq<Seq<char>>, key: Seq<char>, value: Seq<char>) -> Seq<
    Seq<char>,
> {
    if lines.len() > 0 && lines.last().len() > 0 {
        lines.push(Seq::empty()).push(entry_line(key, value))
    } else {
        lines.push(entry_line(key, value))
    }
}

/// The lines after setting `key` to `value`: the first entry for `key` is
/// replaced, every other line kept; with no entry, one is appended.
pub open spec fn upserted(lines: Seq<Seq<char>>, key: Seq<char>, value: Seq<char>) -> Seq<
    Seq<char>,
> {
    if exists|i: int| is_first_entry(lines, key, i) {
        lines.update(choose|i: int| is_first_entry(lines, key, i), entry_line(key, value))
    } else {
        appended(lines, key, value)
    }
}

/// The characters of `s`, one by one.
pub fn chars_of(s: &str) -> (r: Vec<char>)
    ensures
        r@ == s@,
{
    let mut out: Vec<char> = Vec::new();
    for c in it: s.chars()
        invariant
            it.seq() == s@,
            out@ == s@.take(it.index() as int),
    {
        proof {
            assert(s@.take(it.index() + 1) == s@.take(it.index() as int).push(c));
        }
        out.push(c);
    }
    proof {
        assert(s@.take(s@.len() as int) == s@);
    }
    out
}

/// Whether `line` begins with `prefix`.
pub fn starts_with_chars(line: &Vec<char>, prefix: &Vec<char>) -> (r: bool)
    ensures
        r == has_prefix(line@, prefix@),
{
    if prefix.len() > line.len() {
        return false;
    }
    let mut i: usize = 0;
    while i < prefix.len()
        invariant
            prefix.len() <= line.len(),
            i <= prefix.len(),
            line@.take(i as int) == prefix@.take(i as int),
        decreases prefix.len() - i,
    {
        if line[i] != prefix[i] {
            proof {
                assert(line@.take(prefix.len() as int)[i as int] != prefix@[i as int]);
            }
            return false;
        }
        proof {
            assert(line@.take(i + 1) == line@.take(i as int).push(line@[i as int]));
            assert(prefix@.take(i + 1) == prefix@.take(i as int).push(prefix@[i as int]));
        }
        i = i + 1;
    }
    proof {
        assert(prefix@.take(prefix.len() as int) == prefix@);
    }
    true
}

/// Two first entries are the same line.
proof fn lemma_first_entry_unique(lines: Seq<Seq<char>>, key: Seq<char>, i: int, j: int)
    requires
        is_first_entry(lines, key, i),
        is_first_entry(lines, key, j),
    ensures
        i == j,
{
    if i < j {
        assert(!is_entry_of(lines[i], key));
    } else if j < i {
        assert(!is_entry_of(lines[j], key));
    }
}

/// The index of the first line that holds an entry for `key`, if any.
pub fn find_entry(lines: &Vec<String>, key: &str) -> (r: Option<usize>)
    ensures
        r matches Some(i) ==> is_first_entry(line_texts(lines@), key@, i as int),
        r is None ==> !has_entry(line_texts(lines@), key@),
{
    let mut prefix = chars_of(key);
    prefix.push('=');
    let ghost texts = line_texts(lines@);
    let mut i: usize = 0;
    while i < lines.len()
        invariant
            texts == line_texts(lines@),
            prefix@ == key@.push('='),
            i <= lines.len(),
            forall|j: int| 0 <= j < i ==> !is_entry_of(#[trigger] texts[j], key@),
        decreases lines.len() - i,
    {
        let line = chars_of(lines[i].as_str());
        if starts_with_chars(&line, &prefix) {
            return Some(i);
        }
        i = i + 1;
    }
    None
}

/// The file's text: each line followed by a newline.
pub open spec fn file_text(lines: Seq<Seq<char>>) -> Seq<char>
    decreases lines.len(),
{
    if lines.len() == 0 {
        Seq::empty()
    } else {
        file_text(lines.drop_last()) + lines.last().push('\n')
    }
}

/// The text to write for `lines`: each line followed by a newline.
pub fn render_lines(lines: &Vec<String>) -> (r: String)
    ensures
        r@ == file_text(line_texts(lines@)),
{
    let mut out = String::new();
    let mut i: usize = 0;
    proof {
        reveal_strlit("\n");
        assert("\n"@ == seq!['\n']);
    }
    while i < lines.len()
        invariant
            i <= lines.len(),
            "\n"@ == seq!['\n'],
            out@ == file_text(line_texts(lines@).take(i as int)),
        decreases lines.len() - i,
    {
        out.append(lines[i].as_str());
        out.append("\n");
        proof {
            let t = line_texts(lines@);
            assert(t.take(i + 1).drop_last() == t.take(i as int));
            assert(lines@[i as int]@ + seq!['\n'] == t[i as int].push('\n'));
        }
        i = i + 1;
    }
    proof {
        let t = line_texts(lines@);
        assert(t.take(lines.len() as int) == t);
    }
    out
}

/// The line `key=value` is an entry for `key`.
pub proof fn lemma_entry_line_is_entry(key: Seq<char>, value: Seq<char>)
    ensures
        is_entry_of(entry_line(key, value), key),
{
    assert(entry_line(key, value).take(key.len() + 1int) == key.push('='));
}

/// Writing into a file with no lines leaves exactly one line, `key=value`.
pub proof fn lemma_upsert_into_empty(key: Seq<char>, value: Seq<char>)
    ensures
        upserted(Seq::empty(), key, value) == seq![entry_line(key, value)],
{
    assert(!exists|i: int| is_first_entry(Seq::<Seq<char>>::empty(), key, i));
    assert(Seq::<Seq<char>>::empty().push(entry_line(key, value)) == seq![
        entry_line(key, value),
    ]);
}

/// Where the lines hold at most one entry for `key`, they hold exactly one
/// after writing, and it is `key=value`: the old value is gone.
pub proof fn lemma_upsert_leaves_one_entry(
    lines: Seq<Seq<char>>,
    key: Seq<char>,
    value: Seq<char>,
)
    requires
        forall|i: int, j: int|
            0 <= i < lines.len() && 0 <= j < lines.len() && is_entry_of(#[trigger] lines[i], key)
                && is_entry_of(#[trigger] lines[j], key) ==> i == j,
    ensures
        ({
            let r = upserted(lines, key, value);
            exists|i: int|
                0 <= i < r.len() && #[trigger] r[i] == entry_line(key, value) && (forall|j: int|
                    0 <= j < r.len() && is_entry_of(#[trigger] r[j], key) ==> j == i)
        }),
{
    let r = upserted(lines, key, value);
    let e = entry_line(key, value);
    lemma_entry_line_is_entry(key, value);
    if exists|i: int| is_first_entry(lines, key, i) {
        let i = choose|i: int| is_first_entry(lines, key, i);
        assert(r[i] == e);
        assert forall|j: int| 0 <= j < r.len() && is_entry_of(#[trigger] r[j], key) implies j
            == i by {
            if j != i {
                assert(r[j] == lines[j]);
            }
        }
    } else {
        assert forall|k: int| 0 <= k < lines.len() implies !is_entry_of(#[trigger] lines[k], key) by {
            if is_entry_of(lines[k], key) {
                assert(is_first_entry(lines, key, k));
            }
        }
        let i = r.len() - 1;
        assert(r[i] == e);
        assert forall|j: int| 0 <= j < r.len() && is_entry_of(#[trigger] r[j], key) implies j
            == i by {
            if j < lines.len() {
                assert(r[j] == lines[j]);
            } else if j != i {
                assert(r[j] == Seq::<char>::empty());
            }
        }
    }
}

/// Where line `i` is the only entry for `key` and holds `old`, writing
/// `value` replaces that line alone: every other line stays, in place. Where
/// `old` differs from `value`, no line holds `key=old` afterwards.
pub proof fn lemma_upsert_replaces_old_value(
    lines: Seq<Seq<char>>,
    key: Seq<char>,
    old: Seq<char>,
    value: Seq<char>,
    i: int,
)
    requires
        0 <= i < lines.len(),
        lines[i] == entry_line(key, old),
        forall|j: int| 0 <= j < lines.len() && j != i ==> !is_entry_of(#[trigger] lines[j], key),
    ensures
        upserted(lines, key, value) == lines.update(i, entry_line(key, value)),
        old != value ==> !upserted(lines, key, value).contains(entry_line(key, old)),
{
    lemma_entry_line_is_entry(key, old);
    assert(is_first_entry(lines, key, i));
    let k = choose|k: int| is_first_entry(lines, key, k);
    lemma_first_entry_unique(lines, key, i, k);
    let r = upserted(lines, key, value);
    if old != value && r.contains(entry_line(key, old)) {
        let j = choose|j: int| 0 <= j < r.len() && r[j] == entry_line(key, old);
        if j == i {
            let n: int = key.len() + 1int;
            assert(entry_line(key, old).subrange(n, entry_line(key, old).len() as int) =~= old);
            assert(entry_line(key, value).subrange(n, entry_line(key, value).len() as int)
                =~= value);
        } else {
            assert(r[j] == lines[j]);
        }
    }
}

/// Writing a key that no line holds appends: every earlier line stays, in
/// order; a blank separator follows exactly where the last line was not
/// blank; and `key=value` comes last.
pub proof fn lemma_upsert_new_key_appends(lines: Seq<Seq<char>>, key: Seq<char>, value: Seq<char>)
    requires
        !has_entry(lines, key),
    ensures
        ({
            let r = upserted(lines, key, value);
            let sep = lines.len() > 0 && lines.last().len() > 0;
            &&& r.len() == lines.len() + if sep { 2int } else { 1int }
            &&& r.take(lines.len() as int) == lines
            &&& sep ==> r[lines.len() as int] == Seq::<char>::empty()
            &&& r.last() == entry_line(key, value)
        }),
{
    assert forall|k: int| !is_first_entry(lines, key, k) by {
        if is_first_entry(lines, key, k) {
            assert(is_entry_of(lines[k], key));
        }
    }
    let r = upserted(lines, key, value);
    assert(r.take(lines.len() as int) == lines);
}

/// Writes one secret into a `KEY=VALUE` configuration file.
pub struct EnvFileWriter {
    env_path: String,
    key_name: String,
}

impl EnvFileWriter {
    /// The file that is written.
    pub closed spec fn path_spec(&self) -> Seq<char> {
        self.env_path@
    }

    /// The key under which the secret is stored.
    pub closed spec fn key_spec(&self) -> Seq<char> {
        self.key_name@
    }

    /// The file that is written.
    pub fn env_path(&self) -> (r: &str)
        ensures
            r@ == self.path_spec(),
    {
        self.env_path.as_str()
    }

    /// The key under which the secret is stored.
    pub fn key_name(&self) -> (r: &str)
        ensures
            r@ == self.key_spec(),
    {
        self.key_name.as_str()
    }

    /// A writer of `key_name` into the file at `path`.
    pub fn new(path: &str, key_name: &str) -> (r: EnvFileWriter)
        ensures
            r.path_spec() == path@,
            r.key_spec() == key_name@,
    {
        EnvFileWriter { env_path: path.to_owned(), key_name: key_name.to_owned() }
    }

    /// A writer of the default key into the default file.
    pub fn with_default_path() -> (r: EnvFileWriter)
        ensures
            r.path_spec() == ENV_FILE_PATH@,
            r.key_spec() == SECRET_KEY_NAME@,
    {
        EnvFileWriter::new(ENV_FILE_PATH, SECRET_KEY_NAME)
    }

    /// The line `key=secret` for this writer's key.
    pub fn secret_line(&self, secret: &AppSecret) -> (r: String)
        ensures
            r@ == entry_line(self.key_spec(), secret@),
    {
        let mut line = self.key_name.clone();
        proof {
            reveal_strlit("=");
            assert("="@ == seq!['=']);
        }
        line.append("=");
        line.append(secret.as_str());
        proof {
            assert(self.key_spec() + seq!['='] == self.key_spec().push('='));
        }
        line
    }

    /// Sets this writer's key to `secret` in `lines`: the first line that
    /// holds an entry for the key is replaced, and every other line is kept
    /// as it is; where no line does, the entry is appended, after a blank
    /// line unless the last line is blank already.
    pub fn update_secret_in_lines(&self, lines: Vec<String>, secret: &AppSecret) -> (r: Vec<
        String,
    >)
        ensures
            line_texts(r@) == upserted(line_texts(lines@), self.key_spec(), secret@),
    {
        let ghost texts = line_texts(lines@);
        let ghost key = self.key_spec();
        let secret_line = self.secret_line(secret);
        let mut lines = lines;
        match find_entry(&lines, self.key_name.as_str()) {
            Some(i) => {
                lines.set(i, secret_line);
                proof {
                    assert(is_first_entry(texts, key, i as int));
                    let k = choose|k: int| is_first_entry(texts, key, k);
                    lemma_first_entry_unique(texts, key, i as int, k);
                    assert(line_texts(lines@) == texts.update(i as int, entry_line(key, secret@)));
                }
            },
            None => {
                if lines.len() > 0 && !lines[lines.len() - 1].as_str().is_empty() {
                    lines.push(String::new());
                }
                lines.push(secret_line);
                proof {
                    assert forall|k: int| !is_first_entry(texts, key, k) by {
                        if is_first_entry(texts, key, k) {
                            assert(is_entry_of(texts[k], key));
                        }
                    }
                    assert(line_texts(lines@) == appended(texts, key, secret@));
                }
            },
        }
        lines
    }
}

impl Default for EnvFileWriter {
    fn default() -> (r: EnvFileWriter)
        ensures
            r.path_spec() == ENV_FILE_PATH@,
            r.key_spec() == SECRET_KEY_NAME@,
    {
        EnvFileWriter::with_default_path()
    }
}

} // verus!
