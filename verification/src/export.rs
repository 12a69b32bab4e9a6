//! The export of a place's last collection to a file, as a task that tells what to do next.
use vstd::prelude::*;

use crate::json::opt_text;
use crate::store::{
    collection_filters, export_query, filtered, latest_collection_query, town_filters, Statement,
    StatementView, EXPORT_COLUMNS,
};
use crate::text::{
    after_last, chars_of, join2, join3, last_segment, lemma_after_last, lemma_after_last_parts,
    lowered, same_ignoring_case,
    same_text,
};

verus! {

/// A format that an export can be written in.
#[derive(Clone, Copy, PartialEq, Eq, Structural, Debug)]
pub enum ExportFormat {
    Csv,
    Json,
}

/// The format with the given name, where there is one.
pub open spec fn format_named(name: Seq<char>) -> Option<ExportFormat> {
    if name == "CSV"@ {
        Some(ExportFormat::Csv)
    } else if name == "JSON"@ {
        Some(ExportFormat::Json)
    } else {
        None
    }
}

/// The format with the given name.
pub fn export_format(name: &str) -> (r: Option<ExportFormat>)
    ensures
        r == format_named(name@),
{
    if same_text(name, "CSV") {
        Some(ExportFormat::Csv)
    } else if same_text(name, "JSON") {
        Some(ExportFormat::Json)
    } else {
        None
    }
}

impl ExportFormat {
    /// The extension of a file in this format.
    pub open spec fn extension_text(self) -> Seq<char> {
        match self {
            ExportFormat::Csv => "csv"@,
            ExportFormat::Json => "json"@,
        }
    }

    /// The extension of a file in this format.
    pub fn extension(self) -> (r: &'static str)
        ensures
            r@ == self.extension_text(),
    {
        match self {
            ExportFormat::Csv => "csv",
            ExportFormat::Json => "json",
        }
    }
}

/// The extension of a file name: what follows its last dot. A name without a dot has none, nor has
/// one whose only dot is its first character, nor the name of the parent directory.
pub open spec fn extension_of(name: Seq<char>) -> Option<Seq<char>> {
    let extension = after_last(name, '.');
    if name == ".."@ || extension.len() + 1 >= name.len() {
        None
    } else {
        Some(extension)
    }
}

/// The extension of a file name.
pub fn file_extension(name: &str) -> (r: Option<String>)
    ensures
        opt_text(r) == extension_of(name@),
{
    let extension = last_segment(name, '.');
    let length: usize = chars_of(extension.as_str()).len();
    let whole: usize = chars_of(name).len();
    if same_text(name, "..") || whole == 0 || length >= whole - 1 {
        None
    } else {
        Some(extension)
    }
}

/// The file has to be given the extension of the format: it has none or another one, capitals and
/// small letters counting as equal.
pub open spec fn needs_extension(format: ExportFormat, current: Option<Seq<char>>) -> bool {
    match current {
        Some(e) => lowered(e) != lowered(format.extension_text()),
        None => true,
    }
}

/// What is appended to a file name for an export: a dot and the extension of the format where the
/// name lacks it.
pub open spec fn appended(format: ExportFormat, name: Seq<char>) -> Seq<char> {
    if needs_extension(format, extension_of(name)) {
        "."@ + format.extension_text()
    } else {
        seq![]
    }
}

/// What is appended to the file name `name` for an export.
pub fn missing_extension(format: ExportFormat, name: &str) -> (r: String)
    ensures
        r@ == appended(format, name@),
{
    let needed = match file_extension(name) {
        Some(e) => !same_ignoring_case(e.as_str(), format.extension()),
        None => true,
    };
    if needed {
        join2(".", format.extension())
    } else {
        let none = String::new();
        assert(none@ =~= seq![]);
        none
    }
}

/// The name of the file that is written where the user chose `name`: the chosen name, with the
/// extension of the format appended where it lacks it.
pub open spec fn written_name(format: ExportFormat, name: Seq<char>) -> Seq<char> {
    name + appended(format, name)
}

/// The name of the file that is written where the user chose `name`.
pub fn file_name(format: ExportFormat, name: &str) -> (r: String)
    ensures
        r@ == written_name(format, name@),
{
    join2(name, missing_extension(format, name).as_str())
}

proof fn lemma_extension_has_no_dot(format: ExportFormat)
    ensures
        forall|i: int|
            0 <= i < format.extension_text().len() ==> #[trigger] format.extension_text()[i] != '.',
        format.extension_text().len() > 0,
{
    reveal_strlit("csv");
    reveal_strlit("json");
}

/// The file that is written has the extension of its format, up to capitals, and keeps the chosen
/// name in front of what is appended. To choose the name of a written file again appends nothing.
pub proof fn written_file_has_the_extension(format: ExportFormat, name: Seq<char>)
    requires
        name.len() > 0,
    ensures
        extension_of(written_name(format, name)) matches Some(e) && lowered(e) == lowered(
            format.extension_text(),
        ),
        name.is_prefix_of(written_name(format, name)),
        written_name(format, written_name(format, name)) == written_name(format, name),
{
    let extension = format.extension_text();
    let result = written_name(format, name);
    if needs_extension(format, extension_of(name)) {
        reveal_strlit(".");
        reveal_strlit("..");
        lemma_extension_has_no_dot(format);
        assert(result =~= name.push('.') + extension);
        lemma_after_last(name, '.', extension);
        assert(result.last() == extension.last());
        assert(result != ".."@);
    } else {
        assert(result =~= name);
    }
    assert(!needs_extension(format, extension_of(result)));
    assert(written_name(format, result) =~= result);
}

/// What an export waits for.
#[derive(Clone, Copy, PartialEq, Eq, Structural, Debug)]
pub enum ExportStage {
    /// The time of the last collection.
    Latest,
    /// The rows of that collection.
    Rows,
    /// The choice of a file.
    Choice,
    /// The file to be written.
    Writing,
    /// The export is over.
    Over,
}

/// What an export asks for next.
pub enum ExportRequest<C> {
    /// The time of the last collection, by a query.
    Latest(Statement<C>),
    /// The rows to be exported, by a query.
    Rows(Statement<C>),
    /// The user's choice of a file, with a name to start from.
    Choose(String),
    /// The rows to be written in a format to the chosen file, this text appended to its path.
    Write(ExportFormat, String),
    /// Nothing more: the export ends with the file's path or a failure in words.
    Done(Result<String, String>),
}

/// The contents of an [`ExportRequest`].
#[verifier::ext_equal]
pub enum ExportRequestView<C> {
    Latest(StatementView<C>),
    Rows(StatementView<C>),
    Choose(Seq<char>),
    Write(ExportFormat, Seq<char>),
    Done(Result<Seq<char>, Seq<char>>),
}

impl<C> View for ExportRequest<C> {
    type V = ExportRequestView<C>;

    open spec fn view(&self) -> ExportRequestView<C> {
        match *self {
            ExportRequest::Latest(s) => ExportRequestView::Latest(s@),
            ExportRequest::Rows(s) => ExportRequestView::Rows(s@),
            ExportRequest::Choose(n) => ExportRequestView::Choose(n@),
            ExportRequest::Write(f, x) => ExportRequestView::Write(f, x@),
            ExportRequest::Done(r) => ExportRequestView::Done(
                match r {
                    Ok(p) => Ok(p@),
                    Err(e) => Err(e@),
                },
            ),
        }
    }
}

/// A reply to an export's request.
pub enum ExportReply {
    /// The time of the last collection, if there was one.
    Latest(Option<i64>),
    /// The number of rows.
    Rows(usize),
    /// The user chose no file.
    NoFile,
    /// The user chose the file with this path and this name, which ends the path.
    File(String, String),
    /// The file is written.
    Written,
    /// What was asked for failed, in these words.
    Failed(String),
}

/// The contents of an [`ExportReply`].
pub enum ExportReplyView {
    Latest(Option<i64>),
    Rows(usize),
    NoFile,
    File(Seq<char>, Seq<char>),
    Written,
    Failed(Seq<char>),
}

impl View for ExportReply {
    type V = ExportReplyView;

    open spec fn view(&self) -> ExportReplyView {
        match *self {
            ExportReply::Latest(t) => ExportReplyView::Latest(t),
            ExportReply::Rows(n) => ExportReplyView::Rows(n),
            ExportReply::NoFile => ExportReplyView::NoFile,
            ExportReply::File(p, n) => ExportReplyView::File(p@, n@),
            ExportReply::Written => ExportReplyView::Written,
            ExportReply::Failed(t) => ExportReplyView::Failed(t@),
        }
    }
}

/// The reply answers what the export waits for.
pub open spec fn export_answers(stage: ExportStage, reply: ExportReplyView) -> bool {
    match reply {
        ExportReplyView::Latest(t) => stage == ExportStage::Latest,
        ExportReplyView::Rows(n) => stage == ExportStage::Rows,
        ExportReplyView::NoFile => stage == ExportStage::Choice,
        ExportReplyView::File(p, n) => stage == ExportStage::Choice,
        ExportReplyView::Written => stage == ExportStage::Writing,
        ExportReplyView::Failed(t) => stage != ExportStage::Over,
    }
}

/// An export in progress: the place, the name of the format, the path of the file that is written
/// once it is known, and what it waits for.
pub struct Export {
    pub city: String,
    pub state: String,
    pub format: String,
    pub path: String,
    pub stage: ExportStage,
}

/// The contents of an [`Export`].
#[verifier::ext_equal]
pub struct ExportView {
    pub city: Seq<char>,
    pub state: Seq<char>,
    pub format: Seq<char>,
    pub path: Seq<char>,
    pub stage: ExportStage,
}

impl View for Export {
    type V = ExportView;

    open spec fn view(&self) -> ExportView {
        ExportView {
            city: self.city@,
            state: self.state@,
            format: self.format@,
            path: self.path@,
            stage: self.stage,
        }
    }
}

/// The query for the time of the last collection at a place.
pub open spec fn latest_query<C>(city: Seq<char>, state: Seq<char>) -> StatementView<C> {
    filtered::<C>(
        "SELECT MAX(collected_at) FROM hourly_forecasts"@,
        town_filters(city, state),
        ""@,
    )
}

/// The query for the rows of one collection at a place.
pub open spec fn rows_query<C>(city: Seq<char>, state: Seq<char>, collected_at: i64) -> StatementView<
    C,
> {
    filtered::<C>(
        "SELECT "@ + EXPORT_COLUMNS@ + " FROM hourly_forecasts"@,
        collection_filters(city, state, collected_at),
        " ORDER BY start_time ASC"@,
    )
}

impl ExportView {
    /// The export goes on with another request.
    pub open spec fn going<C>(self, stage: ExportStage, request: ExportRequestView<C>) -> (
        ExportView,
        ExportRequestView<C>,
    ) {
        (ExportView { stage, ..self }, request)
    }

    /// The export ends with `r`.
    pub open spec fn ending<C>(self, r: Result<Seq<char>, Seq<char>>) -> (
        ExportView,
        ExportRequestView<C>,
    ) {
        self.going(ExportStage::Over, ExportRequestView::Done(r))
    }

    /// What an export does with a reply.
    pub open spec fn next<C>(self, reply: ExportReplyView) -> (ExportView, ExportRequestView<C>) {
        match reply {
            ExportReplyView::Latest(Some(t)) => self.going(
                ExportStage::Rows,
                ExportRequestView::Rows(rows_query(self.city, self.state, t)),
            ),
            ExportReplyView::Latest(None) => self.ending(
                Err("No data collected for this location yet"@),
            ),
            ExportReplyView::Rows(n) => if n == 0 {
                self.ending(Err("No data found for export"@))
            } else {
                self.going(
                    ExportStage::Choice,
                    ExportRequestView::Choose(self.city + "_"@ + self.state),
                )
            },
            ExportReplyView::NoFile => self.ending(Err("No file selected"@)),
            ExportReplyView::File(path, name) => match format_named(self.format) {
                Some(f) => (ExportView { path: path + appended(f, name), ..self }).going(
                    ExportStage::Writing,
                    ExportRequestView::Write(f, appended(f, name)),
                ),
                None => self.ending(Err("PNG export not implemented yet"@)),
            },
            ExportReplyView::Written => self.ending(Ok(self.path)),
            ExportReplyView::Failed(t) => self.ending(Err(t)),
        }
    }
}

impl Export {
    /// Starts an export of the last collection at a place in the format of the given name.
    pub fn start<C>(city: &str, state: &str, format: &str) -> (r: (Export, ExportRequest<C>))
        ensures
            r.0@ == (ExportView {
                city: city@,
                state: state@,
                format: format@,
                path: seq![],
                stage: ExportStage::Latest,
            }),
            r.1@ == ExportRequestView::Latest(latest_query::<C>(city@, state@)),
    {
        let path = String::new();
        assert(path@ =~= seq![]);
        (
            Export {
                city: city.to_owned(),
                state: state.to_owned(),
                format: format.to_owned(),
                path,
                stage: ExportStage::Latest,
            },
            ExportRequest::Latest(latest_collection_query(city, state)),
        )
    }

    fn finish<C>(&mut self, r: Result<String, String>) -> (request: ExportRequest<C>)
        ensures
            (final(self)@, request@) == old(self)@.ending::<C>(
                match r {
                    Ok(p) => Ok(p@),
                    Err(e) => Err(e@),
                },
            ),
    {
        self.stage = ExportStage::Over;
        ExportRequest::Done(r)
    }

    /// Takes the reply to the last request and tells what to do next.
    pub fn step<C>(&mut self, reply: ExportReply) -> (request: ExportRequest<C>)
        requires
            export_answers(old(self)@.stage, reply@),
        ensures
            (final(self)@, request@) == old(self)@.next::<C>(reply@),
    {
        match reply {
            ExportReply::Latest(latest) => match latest {
                Some(t) => {
                    self.stage = ExportStage::Rows;
                    ExportRequest::Rows(export_query(self.city.as_str(), self.state.as_str(), t))
                },
                None => self.finish(Err("No data collected for this location yet".to_owned())),
            },
            ExportReply::Rows(n) => {
                if n == 0 {
                    self.finish(Err("No data found for export".to_owned()))
                } else {
                    self.stage = ExportStage::Choice;
                    ExportRequest::Choose(join3(self.city.as_str(), "_", self.state.as_str()))
                }
            },
            ExportReply::NoFile => self.finish(Err("No file selected".to_owned())),
            ExportReply::File(path, name) => match export_format(self.format.as_str()) {
                Some(f) => {
                    let more = missing_extension(f, name.as_str());
                    self.stage = ExportStage::Writing;
                    self.path = join2(path.as_str(), more.as_str());
                    ExportRequest::Write(f, more)
                },
                None => self.finish(Err("PNG export not implemented yet".to_owned())),
            },
            ExportReply::Written => {
                let path = self.path.clone();
                self.finish(Ok(path))
            },
            ExportReply::Failed(t) => self.finish(Err(t)),
        }
    }
}

/// How many replies an export still takes at most.
pub open spec fn replies_left(stage: ExportStage) -> nat {
    match stage {
        ExportStage::Latest => 4,
        ExportStage::Rows => 3,
        ExportStage::Choice => 2,
        ExportStage::Writing => 1,
        ExportStage::Over => 0,
    }
}

/// Every reply brings an export closer to its end, which it reaches after four at most; it ends
/// well only once a file is written, with the path of that file.
pub proof fn export_ends<C>(e: ExportView, reply: ExportReplyView)
    requires
        export_answers(e.stage, reply),
    ensures
        replies_left(e.next::<C>(reply).0.stage) < replies_left(e.stage) <= 4,
        e.next::<C>(reply).0.stage == ExportStage::Over <==> e.next::<C>(reply).1 is Done,
        e.next::<C>(reply).1 matches ExportRequestView::Done(Ok(path)) ==> reply
            == ExportReplyView::Written && path == e.path,
{
}

/// The path that an export reports is the chosen one with what the writer was told to append, so a
/// file without the extension keeps its name and is given the extension behind it.
pub proof fn reported_path_is_the_written_one<C>(
    e: ExportView,
    directory: Seq<char>,
    name: Seq<char>,
)
    requires
        format_named(e.format) is Some,
    ensures
        ({
            let format = format_named(e.format)->0;
            let (writing, request) = e.next::<C>(ExportReplyView::File(directory + name, name));
            let (over, report) = writing.next::<C>(ExportReplyView::Written);
            &&& request == ExportRequestView::<C>::Write(format, appended(format, name))
            &&& report == ExportRequestView::<C>::Done(Ok(directory + written_name(format, name)))
        }),
{
    let format = format_named(e.format)->0;
    assert(directory + name + appended(format, name) =~= directory + written_name(format, name));
}

/// An export asks for the time of the last collection at its place, then for the rows that were
/// collected there at that time, then for a file named after the place, and then for the rows to be
/// written; it stops where there was no collection, no row or no file.
pub proof fn export_takes_the_last_collection<C>(
    city: &str,
    state: &str,
    format: &str,
    start: (Export, ExportRequest<C>),
    a: &mut Export,
    b: &mut Export,
    latest: Option<i64>,
    n: usize,
    latest_query: Statement<C>,
    rows_query: Statement<C>,
    r1: ExportRequest<C>,
    r2: ExportRequest<C>,
)
    requires
        call_ensures(Export::start::<C>, (city, state, format), start),
        call_ensures(latest_collection_query::<C>, (city, state), latest_query),
        *old(a) == start.0,
        call_ensures(Export::step::<C>, (a, ExportReply::Latest(latest)), r1),
        latest is Some ==> call_ensures(export_query::<C>, (city, state, latest->0), rows_query),
        old(b)@ == final(a)@,
        call_ensures(Export::step::<C>, (b, ExportReply::Rows(n)), r2),
    ensures
        start.0.format@ == format@,
        start.1@ == ExportRequestView::Latest(latest_query@),
        latest is Some ==> r1@ == ExportRequestView::Rows(rows_query@),
        latest is None ==> r1@ == ExportRequestView::<C>::Done(
            Err("No data collected for this location yet"@),
        ),
        n > 0 ==> r2@ == ExportRequestView::<C>::Choose(city@ + "_"@ + state@),
        n == 0 ==> r2@ == ExportRequestView::<C>::Done(Err("No data found for export"@)),
        final(b)@.format == format@,
{
}

/// The rows are written in the format of the chosen name, to the chosen file with the extension of
/// that format behind it where it lacks it, and the path of that file is reported. Another name than
/// those of the two formats ends the export, and so does a missing file or anything that fails, in
/// its own words.
pub proof fn export_writes_the_chosen_format<C>(
    e: &mut Export,
    f: &mut Export,
    reply: ExportReply,
    name: &str,
    more: String,
    written: ExportFormat,
    r1: ExportRequest<C>,
    r2: ExportRequest<C>,
)
    requires
        export_answers(old(e)@.stage, reply@),
        call_ensures(Export::step::<C>, (e, reply), r1),
        old(f)@ == final(e)@,
        reply is File ==> reply->File_1@ == name@ && call_ensures(
            missing_extension,
            (written, name),
            more,
        ),
        call_ensures(Export::step::<C>, (f, ExportReply::Written), r2),
    ensures
        reply is File && old(e)@.format == "CSV"@ && written == ExportFormat::Csv ==> r1@
            == ExportRequestView::<C>::Write(ExportFormat::Csv, more@) && r2@ == ExportRequestView::<
            C,
        >::Done(Ok(reply->File_0@ + more@)),
        reply is File && old(e)@.format == "JSON"@ && written == ExportFormat::Json ==> r1@
            == ExportRequestView::<C>::Write(ExportFormat::Json, more@) && r2@ == ExportRequestView::<
            C,
        >::Done(Ok(reply->File_0@ + more@)),
        reply is File && old(e)@.format != "CSV"@ && old(e)@.format != "JSON"@ ==> r1@
            == ExportRequestView::<C>::Done(Err("PNG export not implemented yet"@)),
        reply is NoFile ==> r1@ == ExportRequestView::<C>::Done(Err("No file selected"@)),
        reply is Failed ==> r1@ == ExportRequestView::<C>::Done(Err(reply->Failed_0@)),
{
    reveal_strlit("CSV");
    reveal_strlit("JSON");
    assert("CSV"@.len() == 3);
    assert("JSON"@.len() == 4);
}

/// What is appended to a file name is nothing where the name ends in a dot and the extension of the
/// format behind another character, capitals and small letters counting as equal, and else a dot and
/// that extension.
pub proof fn extension_is_appended_where_it_lacks(
    format: ExportFormat,
    name: &str,
    stem: Seq<char>,
    extension: Seq<char>,
    r: String,
)
    requires
        call_ensures(missing_extension, (format, name), r),
        name@ == stem.push('.') + extension,
        stem.len() > 0,
        name@ != ".."@,
        forall|i: int| 0 <= i < extension.len() ==> #[trigger] extension[i] != '.',
    ensures
        format == ExportFormat::Csv ==> r@ == if lowered(extension) == "csv"@ {
            Seq::<char>::empty()
        } else {
            ".csv"@
        },
        format == ExportFormat::Json ==> r@ == if lowered(extension) == "json"@ {
            Seq::<char>::empty()
        } else {
            ".json"@
        },
{
    lemma_after_last(stem, '.', extension);
    reveal_strlit("csv");
    reveal_strlit("json");
    reveal_strlit(".");
    reveal_strlit(".csv");
    reveal_strlit(".json");
    assert(lowered("csv"@) =~= "csv"@);
    assert(lowered("json"@) =~= "json"@);
    assert("."@ + "csv"@ =~= ".csv"@);
    assert("."@ + "json"@ =~= ".json"@);
}

/// A file name without a dot behind its first character lacks the extension of every format.
pub proof fn name_without_a_dot_lacks_the_extension(format: ExportFormat, name: &str, r: String)
    requires
        call_ensures(missing_extension, (format, name), r),
        forall|i: int| 1 <= i < name@.len() ==> #[trigger] name@[i] != '.',
    ensures
        format == ExportFormat::Csv ==> r@ == ".csv"@,
        format == ExportFormat::Json ==> r@ == ".json"@,
{
    reveal_strlit(".");
    reveal_strlit("csv");
    reveal_strlit("json");
    reveal_strlit(".csv");
    reveal_strlit(".json");
    assert("."@ + "csv"@ =~= ".csv"@);
    assert("."@ + "json"@ =~= ".json"@);
    lemma_after_last_parts(name@, '.');
    let e = after_last(name@, '.');
    if e.len() + 1 < name@.len() {
        assert(name@[name@.len() - e.len() - 1] == '.');
    }
}

} // verus!
