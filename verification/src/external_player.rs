//! The external-player escape hatch: the command line that launches the
//! user's chosen media player (default `mpv`) on a resolved stream, with
//! the same referrer and subtitle flags the CLI passes.

use vstd::prelude::*;
use crate::error::AniError;
use crate::text::{
    concat2, find_char_from, find_char_spec, is_first_index_of, lemma_first_index_unique,
    push_char, push_str, str_eq, to_owned_string, trim, trim_spec,
};

verus! {

/// Player flavor: which flag syntax the command line uses.
#[derive(Debug, Clone, Copy, PartialEq, Eq, Structural)]
pub enum ExternalPlayerKind {
    /// mpv, the default.
    Mpv,
    /// VideoLAN VLC.
    Vlc,
    /// IINA on macOS, which forwards mpv flags via `--mpv-` prefixes.
    Iina,
    /// Anything else: a user-supplied argument template.
    Custom,
}

impl Default for ExternalPlayerKind {
    fn default() -> (k: Self)
        ensures
            k == ExternalPlayerKind::Mpv,
    {
        ExternalPlayerKind::Mpv
    }
}

/// What a launch needs: the resolved stream plus optional referrer,
/// subtitle and title, and the player command from the user's config.
#[derive(Debug, Clone, PartialEq, Eq)]
pub struct LaunchArgs {
    /// The resolved stream URL (mp4 or m3u8).
    pub stream_url: String,
    /// The `Referer:` value the upstream CDN requires, if any.
    pub referer: Option<String>,
    /// Subtitle URL (`.vtt`), if any.
    pub subtitle_url: Option<String>,
    /// Title shown in the player window's titlebar.
    pub title: Option<String>,
    /// Player command, e.g. `"mpv"`.
    pub player_command: String,
    /// Which player flag syntax to use.
    pub player_kind: ExternalPlayerKind,
    /// Argument template used only for the `Custom` kind. Placeholders:
    /// `{url}`, `{referer}`, `{title}`, `{sub}`.
    pub custom_args_template: Option<String>,
}

/// The view of an optional string.
pub open spec fn opt_view(o: Option<String>) -> Option<Seq<char>> {
    match o {
        Some(s) => Some(s@),
        None => None,
    }
}

/// An optional string's value, empty when absent.
pub open spec fn or_empty(o: Option<String>) -> Seq<char> {
    match o {
        Some(s) => s@,
        None => Seq::empty(),
    }
}

/// `[flag + value]` when the value is present, nothing otherwise.
pub open spec fn flag_arg(flag: Seq<char>, value: Option<String>) -> Seq<Seq<char>> {
    match value {
        Some(v) => seq![flag + v@],
        None => Seq::empty(),
    }
}

/// The command line for the known players: title, subtitle, referrer,
/// each with the player's own flag, then the URL last.
pub open spec fn templated_argv_spec(
    args: LaunchArgs,
    title_flag: Seq<char>,
    sub_flag: Seq<char>,
    referrer_flag: Seq<char>,
) -> Seq<Seq<char>> {
    flag_arg(title_flag, args.title) + flag_arg(sub_flag, args.subtitle_url) + flag_arg(
        referrer_flag,
        args.referer,
    ) + seq![args.stream_url@]
}

/// The value a placeholder name stands for, if it is one.
pub open spec fn placeholder_value(
    name: Seq<char>,
    url: Seq<char>,
    referer: Seq<char>,
    title: Seq<char>,
    sub: Seq<char>,
) -> Option<Seq<char>> {
    if name == "url"@ {
        Some(url)
    } else if name == "referer"@ {
        Some(referer)
    } else if name == "title"@ {
        Some(title)
    } else if name == "sub"@ {
        Some(sub)
    } else {
        None
    }
}

/// `pre` prepended to a rendering, when there is one.
pub open spec fn prepend(pre: Seq<char>, r: Option<Seq<char>>) -> Option<Seq<char>> {
    match r {
        Some(x) => Some(pre + x),
        None => None,
    }
}

/// One template token with its placeholders substituted: `None` when a
/// known placeholder has an empty value (the whole token is dropped).
/// Unknown placeholders stay verbatim, and an unterminated `{` passes
/// the rest of the token through literally.
pub open spec fn substitute_spec(
    t: Seq<char>,
    url: Seq<char>,
    referer: Seq<char>,
    title: Seq<char>,
    sub: Seq<char>,
) -> Option<Seq<char>>
    decreases t.len(),
{
    if t.len() == 0 {
        Some(Seq::empty())
    } else if t[0] != '{' {
        prepend(seq![t[0]], substitute_spec(t.skip(1), url, referer, title, sub))
    } else {
        let rest = t.skip(1);
        match find_char_spec(rest, '}') {
            Some(j) => if 0 <= j < rest.len() {
                let name = rest.subrange(0, j);
                let after = rest.subrange(j + 1, rest.len() as int);
                match placeholder_value(name, url, referer, title, sub) {
                    Some(v) => if v.len() == 0 {
                        None
                    } else {
                        prepend(v, substitute_spec(after, url, referer, title, sub))
                    },
                    None => prepend(
                        seq!['{'] + name + seq!['}'],
                        substitute_spec(after, url, referer, title, sub),
                    ),
                }
            } else {
                Some(t)
            },
            None => Some(t),
        }
    }
}

proof fn lemma_plain_token(t: Seq<char>, url: Seq<char>, referer: Seq<char>, title: Seq<char>, sub: Seq<char>)
    requires
        !t.contains('{'),
    ensures
        substitute_spec(t, url, referer, title, sub) == Some(t),
    decreases t.len(),
{
    if t.len() > 0 {
        assert(t[0] != '{');
        let tail = t.skip(1);
        assert(!tail.contains('{')) by {
            if tail.contains('{') {
                let k = choose|k: int| 0 <= k < tail.len() && tail[k] == '{';
                assert(t[k + 1] == '{');
            }
        }
        lemma_plain_token(tail, url, referer, title, sub);
        assert(seq![t[0]] + tail =~= t);
    }
}

proof fn lemma_plain_prefix(
    pre: Seq<char>,
    rest: Seq<char>,
    url: Seq<char>,
    referer: Seq<char>,
    title: Seq<char>,
    sub: Seq<char>,
)
    requires
        !pre.contains('{'),
    ensures
        substitute_spec(pre + rest, url, referer, title, sub) == prepend(
            pre,
            substitute_spec(rest, url, referer, title, sub),
        ),
    decreases pre.len(),
{
    if pre.len() == 0 {
        assert(pre + rest =~= rest);
        match substitute_spec(rest, url, referer, title, sub) {
            Some(x) => assert(pre + x =~= x),
            None => {},
        }
    } else {
        let t = pre + rest;
        assert(t[0] == pre[0]);
        assert(pre[0] != '{');
        let ptail = pre.skip(1);
        assert(!ptail.contains('{')) by {
            if ptail.contains('{') {
                let k = choose|k: int| 0 <= k < ptail.len() && ptail[k] == '{';
                assert(pre[k + 1] == '{');
            }
        }
        assert(t.skip(1) =~= ptail + rest);
        lemma_plain_prefix(ptail, rest, url, referer, title, sub);
        match substitute_spec(rest, url, referer, title, sub) {
            Some(x) => assert(seq![pre[0]] + (ptail + x) =~= pre + x),
            None => {},
        }
    }
}

proof fn lemma_braced(
    name: Seq<char>,
    post: Seq<char>,
    url: Seq<char>,
    referer: Seq<char>,
    title: Seq<char>,
    sub: Seq<char>,
)
    requires
        !name.contains('}'),
        !post.contains('{'),
        placeholder_value(name, url, referer, title, sub) is Some,
    ensures
        ({
            let v = placeholder_value(name, url, referer, title, sub)->0;
            substitute_spec(seq!['{'] + name + seq!['}'] + post, url, referer, title, sub) == if v.len()
                == 0 {
                None
            } else {
                Some(v + post)
            }
        }),
{
    let t = seq!['{'] + name + seq!['}'] + post;
    let rest = t.skip(1);
    assert(rest =~= name + seq!['}'] + post);
    assert(t[0] == '{');
    let j = name.len() as int;
    assert(rest[j] == '}');
    assert forall|k: int| 0 <= k < j implies rest[k] != '}' by {
        assert(rest[k] == name[k]);
        if rest[k] == '}' {
            assert(name.contains('}'));
        }
    }
    assert(is_first_index_of(rest, '}', j));
    let w = choose|k: int| is_first_index_of(rest, '}', k);
    lemma_first_index_unique(rest, '}', w, j);
    assert(rest.subrange(0, j) =~= name);
    assert(rest.subrange(j + 1, rest.len() as int) =~= post);
    lemma_plain_token(post, url, referer, title, sub);
}

/// A template token holding one placeholder renders as the text around
/// it with the placeholder's value in its place (`{url}` the stream,
/// `{referer}` the referrer, `{title}` the title, `{sub}` the subtitle
/// URL), and is dropped whole when that value is empty.
pub proof fn law_placeholders_render_their_values(
    pre: Seq<char>,
    post: Seq<char>,
    url: Seq<char>,
    referer: Seq<char>,
    title: Seq<char>,
    sub: Seq<char>,
)
    requires
        !pre.contains('{'),
        !post.contains('{'),
    ensures
        substitute_spec(pre + "{url}"@ + post, url, referer, title, sub) == if url.len() == 0 {
            None
        } else {
            Some(pre + url + post)
        },
        substitute_spec(pre + "{referer}"@ + post, url, referer, title, sub) == if referer.len()
            == 0 {
            None
        } else {
            Some(pre + referer + post)
        },
        substitute_spec(pre + "{title}"@ + post, url, referer, title, sub) == if title.len() == 0 {
            None
        } else {
            Some(pre + title + post)
        },
        substitute_spec(pre + "{sub}"@ + post, url, referer, title, sub) == if sub.len() == 0 {
            None
        } else {
            Some(pre + sub + post)
        },
{
    reveal_strlit("{url}");
    reveal_strlit("{referer}");
    reveal_strlit("{title}");
    reveal_strlit("{sub}");
    reveal_strlit("url");
    reveal_strlit("referer");
    reveal_strlit("title");
    reveal_strlit("sub");
    let names = seq!["url"@, "referer"@, "title"@, "sub"@];
    let vals = seq![url, referer, title, sub];
    let braced = seq!["{url}"@, "{referer}"@, "{title}"@, "{sub}"@];
    assert forall|k: int| 0 <= k < 4 implies substitute_spec(pre + #[trigger] braced[k] + post, url, referer, title, sub)
        == (if vals[k].len() == 0 {
        None
    } else {
        Some(pre + vals[k] + post)
    }) by {
        let name = names[k];
        assert(!name.contains('}'));
        assert(braced[k] =~= seq!['{'] + name + seq!['}']);
        assert("url"@ != "referer"@ && "url"@ != "title"@ && "referer"@ != "title"@) by {
            assert("url"@.len() != "referer"@.len());
            assert("url"@.len() != "title"@.len());
            assert("referer"@.len() != "title"@.len());
        }
        assert("url"@ != "sub"@) by {
            assert("url"@[0] != "sub"@[0]);
        }
        assert("referer"@ != "sub"@ && "title"@ != "sub"@) by {
            assert("referer"@.len() != "sub"@.len());
            assert("title"@.len() != "sub"@.len());
        }
        assert(placeholder_value(name, url, referer, title, sub) == Some(vals[k]));
        lemma_braced(name, post, url, referer, title, sub);
        let rest = seq!['{'] + name + seq!['}'] + post;
        assert(pre + braced[k] + post =~= pre + rest);
        lemma_plain_prefix(pre, rest, url, referer, title, sub);
        if vals[k].len() > 0 {
            assert(pre + (vals[k] + post) =~= pre + vals[k] + post);
        }
    }
    assert(braced[0] == "{url}"@);
    assert(braced[1] == "{referer}"@);
    assert(braced[2] == "{title}"@);
    assert(braced[3] == "{sub}"@);
}

/// The tokens that render, rendered, in order.
pub open spec fn substitute_all_spec(
    tokens: Seq<Seq<char>>,
    url: Seq<char>,
    referer: Seq<char>,
    title: Seq<char>,
    sub: Seq<char>,
) -> Seq<Seq<char>>
    decreases tokens.len(),
{
    if tokens.len() == 0 {
        Seq::empty()
    } else {
        let rest = substitute_all_spec(tokens.drop_last(), url, referer, title, sub);
        match substitute_spec(tokens.last(), url, referer, title, sub) {
            Some(r) => rest.push(r),
            None => rest,
        }
    }
}

/// The Custom kind's command line from the template's shell words
/// (`None` when the template does not split): the substituted tokens,
/// or the bare URL when the words are unavailable.
pub open spec fn custom_argv_from_tokens_spec(
    tokens: Option<Seq<Seq<char>>>,
    args: LaunchArgs,
) -> Seq<Seq<char>> {
    match tokens {
        Some(toks) => substitute_all_spec(
            toks,
            args.stream_url@,
            or_empty(args.referer),
            or_empty(args.title),
            or_empty(args.subtitle_url),
        ),
        None => seq![args.stream_url@],
    }
}

/// The shell words `shlex::split` reads out of a string (`None` on
/// unbalanced quoting or a trailing escape).
pub uninterp spec fn shlex_split_spec(input: Seq<char>) -> Option<Seq<Seq<char>>>;

/// Calls `shlex::split`: POSIX-shell word splitting. The contract only
/// ties the result to [`shlex_split_spec`] of the input; the splitting
/// rules themselves are the crate's and are not restated here.
#[verifier::external_body]
fn shlex_split(input: &str) -> (r: Option<Vec<String>>)
    ensures
        r.deep_view() == shlex_split_spec(input@),
{
    shlex::split(input)
}

/// Whether the Custom template is effectively absent.
pub open spec fn template_blank(t: Option<String>) -> bool {
    match t {
        Some(s) => trim_spec(s@).len() == 0,
        None => true,
    }
}

/// The full command line for every kind.
pub open spec fn build_argv_spec(args: LaunchArgs) -> Seq<Seq<char>> {
    match args.player_kind {
        ExternalPlayerKind::Mpv => templated_argv_spec(
            args,
            "--force-media-title="@,
            "--sub-file="@,
            "--referrer="@,
        ),
        ExternalPlayerKind::Vlc => templated_argv_spec(
            args,
            "--meta-title="@,
            "--sub-file="@,
            "--http-referrer="@,
        ),
        ExternalPlayerKind::Iina => templated_argv_spec(
            args,
            "--mpv-force-media-title="@,
            "--sub-file="@,
            "--mpv-referrer="@,
        ),
        ExternalPlayerKind::Custom => if template_blank(args.custom_args_template) {
            seq![args.stream_url@]
        } else {
            custom_argv_from_tokens_spec(
                shlex_split_spec(or_empty(args.custom_args_template)),
                args,
            )
        },
    }
}

/// Substitute the placeholders of one template token; `None` drops the
/// token because a placeholder in it had no value.
pub fn substitute_token(tok: &str, url: &str, referer: &str, title: &str, sub: &str) -> (r: Option<
    String,
>)
    ensures
        opt_view(r) == substitute_spec(tok@, url@, referer@, title@, sub@),
{
    let len = tok.unicode_len();
    let mut out = String::new();
    let mut i: usize = 0;
    proof {
        assert(tok@.subrange(0, len as int) =~= tok@);
        assert(Seq::<char>::empty() + tok@ =~= tok@);
        match substitute_spec(tok@, url@, referer@, title@, sub@) {
            Some(x) => assert(Seq::<char>::empty() + x =~= x),
            None => {},
        }
    }
    while i < len
        invariant
            i <= len,
            len == tok@.len(),
            substitute_spec(tok@, url@, referer@, title@, sub@) == prepend(
                out@,
                substitute_spec(tok@.subrange(i as int, len as int), url@, referer@, title@, sub@),
            ),
        decreases len - i,
    {
        let ghost cur = tok@.subrange(i as int, len as int);
        let ghost before = out@;
        let c = tok.get_char(i);
        proof {
            assert(cur[0] == c);
            assert(cur.skip(1) =~= tok@.subrange(i + 1, len as int));
        }
        if c != '{' {
            push_char(&mut out, c);
            proof {
                let tail = substitute_spec(tok@.subrange(i + 1, len as int), url@, referer@, title@, sub@);
                match tail {
                    Some(x) => assert(before + (seq![c] + x) =~= before.push(c) + x),
                    None => {},
                }
            }
            i = i + 1;
        } else {
            let ghost rest = cur.skip(1);
            match find_char_from(tok, '}', i + 1) {
                None => {
                    let tail = tok.substring_char(i, len);
                    push_str(&mut out, tail);
                    proof {
                        assert forall|k: int| !is_first_index_of(rest, '}', k) by {
                            if 0 <= k < rest.len() {
                                assert(rest[k] == tok@[i + 1 + k]);
                            }
                        }
                    }
                    return Some(out);
                },
                Some(j) => {
                    let ghost rj = j - i - 1;
                    proof {
                        assert(is_first_index_of(rest, '}', rj)) by {
                            assert(rest[rj] == tok@[j as int]);
                            assert forall|k: int| 0 <= k < rj implies rest[k] != '}' by {
                                assert(rest[k] == tok@[i + 1 + k]);
                            }
                        }
                        let w = choose|k: int| is_first_index_of(rest, '}', k);
                        lemma_first_index_unique(rest, '}', w, rj);
                    }
                    let name = tok.substring_char(i + 1, j);
                    proof {
                        assert(name@ =~= rest.subrange(0, rj));
                        assert(tok@.subrange(j + 1, len as int) =~= rest.subrange(
                            rj + 1,
                            rest.len() as int,
                        ));
                    }
                    let value: Option<&str> = if str_eq(name, "url") {
                        Some(url)
                    } else if str_eq(name, "referer") {
                        Some(referer)
                    } else if str_eq(name, "title") {
                        Some(title)
                    } else if str_eq(name, "sub") {
                        Some(sub)
                    } else {
                        None
                    };
                    let ghost tail = substitute_spec(
                        tok@.subrange(j + 1, len as int),
                        url@,
                        referer@,
                        title@,
                        sub@,
                    );
                    match value {
                        Some(v) => {
                            if v.unicode_len() == 0 {
                                return None;
                            }
                            push_str(&mut out, v);
                            proof {
                                match tail {
                                    Some(x) => assert(before + (v@ + x) =~= (before + v@) + x),
                                    None => {},
                                }
                            }
                        },
                        None => {
                            push_char(&mut out, '{');
                            push_str(&mut out, name);
                            push_char(&mut out, '}');
                            proof {
                                match tail {
                                    Some(x) => assert(before + ((seq!['{'] + name@ + seq!['}'])
                                        + x) =~= before.push('{').add(name@).push('}') + x),
                                    None => {},
                                }
                            }
                        },
                    }
                    i = j + 1;
                },
            }
        }
    }
    proof {
        assert(tok@.subrange(i as int, len as int) =~= Seq::<char>::empty());
        assert(out@ + Seq::<char>::empty() =~= out@);
    }
    Some(out)
}

fn opt_as_str(o: &Option<String>) -> (r: &str)
    ensures
        r@ == or_empty(*o),
{
    proof {
        reveal_strlit("");
    }
    match o {
        Some(s) => s.as_str(),
        None => "",
    }
}

/// The Custom kind's command line from the template's shell words,
/// `None` meaning the template did not split (bad quoting).
pub fn argv_from_custom_tokens(tokens: Option<Vec<String>>, args: &LaunchArgs) -> (r: Vec<String>)
    ensures
        r.deep_view() == custom_argv_from_tokens_spec(tokens.deep_view(), *args),
{
    let toks = match tokens {
        Some(t) => t,
        None => {
            let v = vec![args.stream_url.clone()];
            proof {
                assert(v.deep_view() =~= seq![args.stream_url@]);
            }
            return v;
        },
    };
    let referer = opt_as_str(&args.referer);
    let title = opt_as_str(&args.title);
    let sub = opt_as_str(&args.subtitle_url);
    let url = args.stream_url.as_str();
    let ghost dv = toks.deep_view();
    let mut out: Vec<String> = Vec::new();
    let mut i: usize = 0;
    while i < toks.len()
        invariant
            i <= toks@.len(),
            dv == toks.deep_view(),
            out.deep_view() =~= substitute_all_spec(dv.subrange(0, i as int), url@, referer@, title@, sub@),
        decreases toks@.len() - i,
    {
        proof {
            assert(dv.subrange(0, i + 1).drop_last() =~= dv.subrange(0, i as int));
            assert(dv.subrange(0, i + 1).last() == toks@[i as int]@);
        }
        let ghost before = out.deep_view();
        match substitute_token(toks[i].as_str(), url, referer, title, sub) {
            Some(r) => {
                out.push(r);
                proof {
                    assert(out.deep_view() =~= before.push(r@));
                }
            },
            None => {},
        }
        i = i + 1;
    }
    proof {
        assert(dv.subrange(0, i as int) =~= dv);
    }
    out
}

/// `[flag + value]` when the value is present.
fn push_flag(argv: &mut Vec<String>, flag: &str, value: &Option<String>)
    ensures
        final(argv).deep_view() == old(argv).deep_view() + flag_arg(flag@, *value),
{
    let ghost before = argv.deep_view();
    match value {
        Some(v) => {
            argv.push(concat2(flag, v.as_str()));
            proof {
                assert(argv.deep_view() =~= before + seq![flag@ + v@]);
            }
        },
        None => {
            proof {
                assert(before + Seq::<Seq<char>>::empty() =~= before);
            }
        },
    }
}

/// Shared argv assembly for the three known players.
pub fn build_argv_with_template(
    args: &LaunchArgs,
    title_flag: &str,
    sub_flag: &str,
    referrer_flag: &str,
) -> (r: Vec<String>)
    ensures
        r.deep_view() == templated_argv_spec(*args, title_flag@, sub_flag@, referrer_flag@),
{
    let mut argv: Vec<String> = Vec::new();
    proof {
        assert(argv.deep_view() =~= Seq::<Seq<char>>::empty());
    }
    push_flag(&mut argv, title_flag, &args.title);
    push_flag(&mut argv, sub_flag, &args.subtitle_url);
    push_flag(&mut argv, referrer_flag, &args.referer);
    let ghost before = argv.deep_view();
    argv.push(args.stream_url.clone());
    proof {
        assert(argv.deep_view() =~= before + seq![args.stream_url@]);
        assert(Seq::<Seq<char>>::empty() + flag_arg(title_flag@, args.title) =~= flag_arg(
            title_flag@,
            args.title,
        ));
    }
    argv
}

/// Build the Custom kind's command line: shell-split the template and
/// substitute placeholders per token; a blank template, or one that
/// does not split, falls back to the bare URL.
pub fn build_argv_custom(args: &LaunchArgs) -> (r: Vec<String>)
    requires
        args.player_kind == ExternalPlayerKind::Custom,
    ensures
        r.deep_view() == build_argv_spec(*args),
{
    let template = opt_as_str(&args.custom_args_template);
    if trim(template).unicode_len() == 0 {
        let v = vec![args.stream_url.clone()];
        proof {
            assert(v.deep_view() =~= seq![args.stream_url@]);
        }
        return v;
    }
    let tokens = shlex_split(template);
    argv_from_custom_tokens(tokens, args)
}

/// Build the argv passed to the player command.
pub fn build_argv(args: &LaunchArgs) -> (r: Vec<String>)
    ensures
        r.deep_view() == build_argv_spec(*args),
{
    match args.player_kind {
        ExternalPlayerKind::Mpv => build_argv_with_template(
            args,
            "--force-media-title=",
            "--sub-file=",
            "--referrer=",
        ),
        ExternalPlayerKind::Vlc => build_argv_with_template(
            args,
            "--meta-title=",
            "--sub-file=",
            "--http-referrer=",
        ),
        ExternalPlayerKind::Iina => build_argv_with_template(
            args,
            "--mpv-force-media-title=",
            "--sub-file=",
            "--mpv-referrer=",
        ),
        ExternalPlayerKind::Custom => build_argv_custom(args),
    }
}

/// The command line for a launch, or the spawn failure a blank player
/// command is reported as (carrying the configured command).
pub open spec fn prepare_launch_spec(args: LaunchArgs) -> Result<Seq<Seq<char>>, AniError> {
    if trim_spec(args.player_command@).len() == 0 {
        Err(AniError::PlayerSpawnFailed { binary: args.player_command })
    } else {
        Ok(build_argv_spec(args))
    }
}

/// Check the launch and build its command line; the caller spawns
/// `player_command` with it.
pub fn prepare_launch(args: &LaunchArgs) -> (r: Result<Vec<String>, AniError>)
    ensures
        match r {
            Ok(v) => prepare_launch_spec(*args) == Ok::<Seq<Seq<char>>, AniError>(v.deep_view()),
            Err(e) => prepare_launch_spec(*args) == Err::<Seq<Seq<char>>, AniError>(e),
        },
{
    if trim(args.player_command.as_str()).unicode_len() == 0 {
        return Err(AniError::PlayerSpawnFailed { binary: args.player_command.clone() });
    }
    Ok(build_argv(args))
}

/// The URL is always the last argument for the known players, and every
/// argument before it is one of the three flags.
pub proof fn law_known_players_end_with_the_url(args: LaunchArgs)
    requires
        args.player_kind != ExternalPlayerKind::Custom,
    ensures
        build_argv_spec(args).len() >= 1,
        build_argv_spec(args).last() == args.stream_url@,
        build_argv_spec(args).len() <= 4,
{
}

} // verus!
