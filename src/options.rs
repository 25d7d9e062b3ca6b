use vstd::prelude::*;

verus! {

/// Session configuration: the prompt, the banner lines shown once at start,
/// the command prefix (also the program name handed to the parser), and
/// whether every line is a command.
#[derive(Debug, Clone)]
pub struct Options {
    prompt: String,
    header: String,
    author: String,
    version: String,
    date: String,
    command_prompt: Option<String>,
    disable_free_expression: bool,
}

/// What an `Options` holds, as plain text.
pub ghost struct OptionsView {
    pub prompt: Seq<char>,
    pub header: Seq<char>,
    pub author: Seq<char>,
    pub version: Seq<char>,
    pub date: Seq<char>,
    pub command_prompt: Option<Seq<char>>,
    pub disable_free_expression: bool,
}

impl View for Options {
    type V = OptionsView;

    closed spec fn view(&self) -> OptionsView {
        OptionsView {
            prompt: self.prompt@,
            header: self.header@,
            author: self.author@,
            version: self.version@,
            date: self.date@,
            command_prompt: self.command_prompt.deep_view(),
            disable_free_expression: self.disable_free_expression,
        }
    }
}

/// The prompt used when none is configured.
pub open spec fn default_prompt() -> Seq<char> {
    seq!['λ', '>']
}

/// `label` followed by `value` when `value` is not empty; nothing otherwise.
pub open spec fn banner_line(label: Seq<char>, value: Seq<char>) -> Seq<Seq<char>> {
    if value.len() > 0 {
        seq![label + value]
    } else {
        Seq::empty()
    }
}

/// The lines shown once when a session starts: each non-empty banner field,
/// then a blank separator line if any was shown.
pub open spec fn banner_lines(o: OptionsView) -> Seq<Seq<char>> {
    let body = banner_line(Seq::empty(), o.header) + banner_line("Author: "@, o.author)
        + banner_line("Version: "@, o.version) + banner_line("Date: "@, o.date);
    if body.len() > 0 {
        body.push(Seq::empty())
    } else {
        body
    }
}

/// The prompt as shown: the per-call text, a space and the configured prompt,
/// or the configured prompt alone.
pub open spec fn prompt_line(o: OptionsView, p: Option<Seq<char>>) -> Seq<char> {
    match p {
        Some(x) => x + seq![' '] + o.prompt,
        None => o.prompt,
    }
}

/// Appends `label` and `value` to `lines` as one line, when `value` is not
/// empty.
fn add_banner_line(lines: &mut Vec<String>, label: &str, value: &String)
    ensures
        final(lines).deep_view() == old(lines).deep_view() + banner_line(label@, value@),
{
    if value.as_str().is_empty() {
        assert(old(lines).deep_view() + banner_line(label@, value@) =~= old(lines).deep_view());
        return;
    }
    let ghost before = lines.deep_view();
    let mut line = String::new();
    line.append(label);
    line.append(value.as_str());
    lines.push(line);
    assert(lines.deep_view() =~= before + banner_line(label@, value@));
}

impl Default for Options {
    fn default() -> (r: Self)
        ensures
            r@.prompt == default_prompt(),
            r@.header.len() == 0,
            r@.author.len() == 0,
            r@.version.len() == 0,
            r@.date.len() == 0,
            r@.command_prompt is None,
            !r@.disable_free_expression,
    {
        let mut prompt = String::new();
        prompt.append("λ>");
        proof {
            reveal_strlit("λ>");
            assert(prompt@ =~= default_prompt());
        }
        Options {
            prompt,
            header: String::new(),
            author: String::new(),
            version: String::new(),
            date: String::new(),
            command_prompt: None,
            disable_free_expression: false,
        }
    }
}

impl Options {
    /// Sets the prompt text.
    pub fn prompt(self, prompt: &str) -> (r: Self)
        ensures
            r@ == (OptionsView { prompt: prompt@, ..self@ }),
    {
        Options { prompt: prompt.to_owned(), ..self }
    }

    /// Sets the header line of the banner.
    pub fn header(self, header: &str) -> (r: Self)
        ensures
            r@ == (OptionsView { header: header@, ..self@ }),
    {
        Options { header: header.to_owned(), ..self }
    }

    /// Sets the author line of the banner.
    pub fn author(self, author: &str) -> (r: Self)
        ensures
            r@ == (OptionsView { author: author@, ..self@ }),
    {
        Options { author: author.to_owned(), ..self }
    }

    /// Sets the version line of the banner.
    pub fn version(self, version: &str) -> (r: Self)
        ensures
            r@ == (OptionsView { version: version@, ..self@ }),
    {
        Options { version: version.to_owned(), ..self }
    }

    /// Sets the date line of the banner.
    pub fn date(self, date: &str) -> (r: Self)
        ensures
            r@ == (OptionsView { date: date@, ..self@ }),
    {
        Options { date: date.to_owned(), ..self }
    }

    /// Treats every line as a command, with or without the prefix.
    pub fn disable_free_expression(self) -> (r: Self)
        ensures
            r@ == (OptionsView { disable_free_expression: true, ..self@ }),
    {
        Options { disable_free_expression: true, ..self }
    }

    /// Sets the command prefix, which is also the program name handed to the
    /// parser.
    pub fn command_prompt(self, prompt: &str) -> (r: Self)
        ensures
            r@ == (OptionsView { command_prompt: Some(prompt@), ..self@ }),
    {
        Options { command_prompt: Some(prompt.to_owned()), ..self }
    }

    /// The lines to show once when a session starts.
    pub fn banner(&self) -> (r: Vec<String>)
        ensures
            r.deep_view() == banner_lines(self@),
    {
        let mut lines: Vec<String> = Vec::new();
        proof {
            reveal_strlit("");
        }
        add_banner_line(&mut lines, "", &self.header);
        add_banner_line(&mut lines, "Author: ", &self.author);
        add_banner_line(&mut lines, "Version: ", &self.version);
        add_banner_line(&mut lines, "Date: ", &self.date);
        assert(lines.deep_view() =~= banner_line(Seq::empty(), self@.header) + banner_line(
            "Author: "@,
            self@.author,
        ) + banner_line("Version: "@, self@.version) + banner_line("Date: "@, self@.date));
        if lines.len() > 0 {
            let ghost before = lines.deep_view();
            lines.push(String::new());
            assert(lines.deep_view() =~= before.push(Seq::empty()));
        }
        lines
    }

    /// The prompt as shown for a call with per-call settings `p`.
    pub fn prompt_for(&self, p: &PromptOptions) -> (r: String)
        ensures
            r@ == prompt_line(self@, p@),
    {
        match p.prefix() {
            Some(x) => {
                let mut line = x.clone();
                line.append(" ");
                line.append(self.prompt.as_str());
                proof {
                    reveal_strlit(" ");
                }
                line
            },
            None => self.prompt.clone(),
        }
    }

    pub fn prompt_text(&self) -> (r: &String)
        ensures
            r@ == self@.prompt,
    {
        &self.prompt
    }

    pub fn header_text(&self) -> (r: &String)
        ensures
            r@ == self@.header,
    {
        &self.header
    }

    pub fn author_text(&self) -> (r: &String)
        ensures
            r@ == self@.author,
    {
        &self.author
    }

    pub fn version_text(&self) -> (r: &String)
        ensures
            r@ == self@.version,
    {
        &self.version
    }

    pub fn date_text(&self) -> (r: &String)
        ensures
            r@ == self@.date,
    {
        &self.date
    }

    pub fn command_prefix(&self) -> (r: &Option<String>)
        ensures
            r.deep_view() == self@.command_prompt,
    {
        &self.command_prompt
    }

    pub fn free_expression_disabled(&self) -> (r: bool)
        ensures
            r == self@.disable_free_expression,
    {
        self.disable_free_expression
    }
}

/// Per-call settings: a text shown before the configured prompt.
#[derive(Debug)]
pub struct PromptOptions {
    prompt: Option<String>,
}

impl View for PromptOptions {
    type V = Option<Seq<char>>;

    closed spec fn view(&self) -> Option<Seq<char>> {
        self.prompt.deep_view()
    }
}

impl Default for PromptOptions {
    fn default() -> (r: Self)
        ensures
            r@ is None,
    {
        PromptOptions { prompt: None }
    }
}

impl PromptOptions {
    /// Sets the text shown before the configured prompt.
    pub fn prompt(self, prompt: &str) -> (r: Self)
        ensures
            r@ == Some(prompt@),
    {
        PromptOptions { prompt: Some(prompt.to_owned()) }
    }

    pub fn prefix(&self) -> (r: &Option<String>)
        ensures
            r.deep_view() == self@,
    {
        &self.prompt
    }
}

} // verus!
