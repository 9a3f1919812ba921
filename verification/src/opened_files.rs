//! The files that the application is asked to open.
//!
//! They come as command-line arguments, of the first run or of a later one
//! that handed its arguments over. The first argument is the program itself
//! and flags start with `-`; every other argument names a file, as a plain
//! path or as a `file:` URL.

use vstd::prelude::*;
use vstd::string::*;

verus! {

/// `url::Url`: a parsed URL. It is carried from the parser to the two
/// questions asked of it, and nothing is known of what it holds.
#[verifier::external_type_specification]
#[verifier::external_body]
pub struct ExUrl(url::Url);

/// `url::ParseError`: why a text is no URL. It is never looked into.
#[verifier::external_type_specification]
#[verifier::external_body]
pub struct ExUrlParseError(url::ParseError);

/// Whether `url::Url::parse` accepts the text as an absolute URL.
pub uninterp spec fn url_parses(text: Seq<char>) -> bool;

/// `url::Url::parse`: parses an absolute URL. Whether it succeeds depends on
/// the text alone; nothing is claimed of the URL that comes out.
pub assume_specification[ url::Url::parse ](input: &str) -> (r: Result<url::Url, url::ParseError>)
    ensures
        r.is_ok() == url_parses(input@),
;

/// `url::Url::cannot_be_a_base`: whether the URL is one like `data:` or
/// `mailto:`, with no slash after the scheme. Nothing is claimed of the
/// answer.
pub assume_specification[ url::Url::cannot_be_a_base ](url: &url::Url) -> (r: bool)
;

/// `url::Url::to_file_path`: the local path that the URL stands for, if it
/// stands for one, with any bytes that are not UTF-8 replaced. The answer
/// depends on the platform; nothing is claimed of it.
#[verifier::external_body]
fn url_file_path(url: &url::Url) -> (path: Option<String>) {
    match url.to_file_path() {
        Ok(path) => Some(path.to_string_lossy().into_owned()),
        Err(()) => None,
    }
}

/// What reading an argument as a URL gave.
#[derive(Clone, Debug, PartialEq, Eq)]
pub enum UrlReading {
    /// The argument is no URL.
    NotUrl,
    /// The argument is a URL.
    Url {
        /// The URL is opaque, like `data:` or `mailto:`.
        cannot_be_a_base: bool,
        /// The local path that the URL stands for, if it was asked for and
        /// there is one.
        file_path: Option<String>,
    },
}

/// The argument is a flag: it starts with `-`.
pub open spec fn is_flag(arg: Seq<char>) -> bool {
    arg.len() > 0 && arg[0] == '-'
}

/// The texts of the arguments.
pub open spec fn texts(args: Seq<String>) -> Seq<Seq<char>> {
    Seq::new(args.len(), |i: int| args[i]@)
}

/// The arguments without the flags, in their order.
pub open spec fn without_flags(args: Seq<Seq<char>>) -> Seq<Seq<char>>
    decreases args.len(),
{
    if args.len() == 0 {
        Seq::empty()
    } else if is_flag(args.last()) {
        without_flags(args.drop_last())
    } else {
        without_flags(args.drop_last()).push(args.last())
    }
}

/// The arguments that name files: all but the first, without the flags.
pub open spec fn file_arguments(args: Seq<Seq<char>>) -> Seq<Seq<char>> {
    if args.len() == 0 {
        Seq::empty()
    } else {
        without_flags(args.subrange(1, args.len() as int))
    }
}

/// The entry that an argument becomes: the path of its URL where the URL
/// is not opaque and stands for a local path, and else the argument itself.
pub open spec fn entry_for(arg: Seq<char>, reading: UrlReading) -> Seq<char> {
    match reading {
        UrlReading::Url { cannot_be_a_base: false, file_path: Some(path) } => path@,
        _ => arg,
    }
}

/// Whether the argument is a flag.
pub fn starts_with_dash(arg: &str) -> (flag: bool)
    ensures
        flag == is_flag(arg@),
{
    if arg.is_empty() {
        false
    } else {
        arg.get_char(0) == '-'
    }
}

/// Reads an argument as a URL. The path is asked for only where the URL is
/// not opaque.
fn read_url(arg: &str) -> (reading: UrlReading)
    ensures
        reading is NotUrl <==> !url_parses(arg@),
        reading matches UrlReading::Url { cannot_be_a_base: true, file_path } ==> file_path.is_none(),
{
    match url::Url::parse(arg) {
        Ok(url) => {
            let cannot_be_a_base = url.cannot_be_a_base();
            let file_path = if cannot_be_a_base {
                None
            } else {
                url_file_path(&url)
            };
            UrlReading::Url { cannot_be_a_base, file_path }
        },
        Err(_) => UrlReading::NotUrl,
    }
}

/// Chooses the entry for an argument from what reading it as a URL gave.
pub fn opened_entry(arg: String, reading: UrlReading) -> (entry: String)
    ensures
        entry@ == entry_for(arg@, reading),
{
    match reading {
        UrlReading::Url { cannot_be_a_base, file_path } => {
            if cannot_be_a_base {
                arg
            } else {
                match file_path {
                    Some(path) => path,
                    None => arg,
                }
            }
        },
        UrlReading::NotUrl => arg,
    }
}

/// Collects the files named on a command line.
///
/// The first argument is skipped, and so is every flag. Each other argument
/// adds one entry to `files`, in order, behind what `files` held: the
/// argument itself where it is no URL, and for a URL either its local path
/// or the argument itself.
pub fn parse_files_opened(files: &mut Vec<String>, args: &Vec<String>)
    ensures
        final(files)@.len() == old(files)@.len() + file_arguments(texts(args@)).len(),
        final(files)@.subrange(0, old(files)@.len() as int) == old(files)@,
        forall|i: int|
            0 <= i < file_arguments(texts(args@)).len() && !url_parses(
                #[trigger] file_arguments(texts(args@))[i],
            ) ==> final(files)@[old(files)@.len() + i]@ == file_arguments(texts(args@))[i],
{
    let ghost all = texts(args@);
    if args.len() == 0 {
        assert(files@.subrange(0, files@.len() as int) =~= files@);
        return ;
    }
    assert(files@.subrange(0, files@.len() as int) =~= files@);
    let mut i: usize = 1;
    while i < args.len()
        invariant
            1 <= i <= args@.len(),
            all == texts(args@),
            files@.len() == old(files)@.len() + without_flags(all.subrange(1, i as int)).len(),
            files@.subrange(0, old(files)@.len() as int) == old(files)@,
            forall|k: int|
                0 <= k < without_flags(all.subrange(1, i as int)).len() && !url_parses(
                    #[trigger] without_flags(all.subrange(1, i as int))[k],
                ) ==> files@[old(files)@.len() + k]@ == without_flags(all.subrange(1, i as int))[k],
        decreases args@.len() - i,
    {
        let arg: String = args[i].clone();
        let ghost shorter = all.subrange(1, i as int);
        let ghost longer = all.subrange(1, i + 1);
        assert(longer.drop_last() =~= shorter);
        assert(longer.last() == arg@);
        if !starts_with_dash(arg.as_str()) {
            let reading = read_url(arg.as_str());
            let entry = opened_entry(arg, reading);
            let ghost earlier = files@;
            files.push(entry);
            assert(files@.subrange(0, old(files)@.len() as int) =~= earlier.subrange(
                0,
                old(files)@.len() as int,
            ));
            assert forall|k: int|
                0 <= k < without_flags(longer).len() && !url_parses(
                    #[trigger] without_flags(longer)[k],
                ) implies files@[old(files)@.len() + k]@ == without_flags(longer)[k] by {
                if k < without_flags(shorter).len() {
                    assert(without_flags(longer)[k] == without_flags(shorter)[k]);
                    assert(files@[old(files)@.len() + k] == earlier[old(files)@.len() + k]);
                }
            }
        }
        i = i + 1;
    }
    assert(all.subrange(1, i as int) =~= all.subrange(1, all.len() as int));
}

} // verus!
