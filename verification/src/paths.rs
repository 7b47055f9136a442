//! The search path that the worker and its helpers are run with.

use crate::text::texts;
use vstd::prelude::*;
use vstd::string::StringExecFns;

verus! {

/// What stands between the directories of a search path.
pub open spec fn separator(windows: bool) -> Seq<char> {
    if windows {
        ";"@
    } else {
        ":"@
    }
}

/// The texts of `parts` in a row, with `sep` between each two.
pub open spec fn joined_with(parts: Seq<Seq<char>>, sep: Seq<char>) -> Seq<char>
    decreases parts.len(),
{
    if parts.len() == 0 {
        Seq::empty()
    } else if parts.len() == 1 {
        parts[0]
    } else {
        joined_with(parts.drop_last(), sep) + sep + parts.last()
    }
}

/// The directories in which package managers put programs on Windows,
/// for a user whose profile is `profile`.
pub open spec fn windows_dirs(profile: Option<Seq<char>>) -> Seq<Seq<char>> {
    (match profile {
        Some(p) => seq![
            p + "\\AppData\\Local\\Microsoft\\WinGet\\Links"@,
            p + "\\scoop\\shims"@,
            p + "\\AppData\\Local\\Programs\\Python\\Python313\\Scripts"@,
            p + "\\AppData\\Local\\Programs\\Python\\Python312\\Scripts"@,
            p + "\\AppData\\Local\\Programs\\Python\\Python311\\Scripts"@,
            p + "\\AppData\\Local\\Programs\\Python\\Python310\\Scripts"@,
            p + "\\AppData\\Local\\Programs\\Python\\Python3\\Scripts"@,
            p + "\\.local\\bin"@,
            p + "\\.deno\\bin"@,
        ],
        None => Seq::empty(),
    }) + seq!["C:\\ProgramData\\chocolatey\\bin"@]
}

/// The directories in which package managers put programs elsewhere, for
/// a user whose home is `home`.
pub open spec fn unix_dirs(home: Option<Seq<char>>) -> Seq<Seq<char>> {
    seq!["/opt/homebrew/bin"@, "/usr/local/bin"@, "/usr/bin"@, "/bin"@] + (match home {
        Some(h) => seq![h + "/.local/bin"@, h + "/.deno/bin"@],
        None => Seq::empty(),
    })
}

/// The directories of the search path: those of the package managers
/// first, then the search path that was inherited, if it is not empty.
pub open spec fn search_dirs(current: Seq<char>, home: Option<Seq<char>>, windows: bool) -> Seq<
    Seq<char>,
> {
    (if windows {
        windows_dirs(home)
    } else {
        unix_dirs(home)
    }) + (if current.len() > 0 {
        seq![current]
    } else {
        Seq::empty()
    })
}

fn push_under(dirs: &mut Vec<String>, home: &str, tail: &str)
    ensures
        texts(final(dirs)@) == texts(old(dirs)@).push(home@ + tail@),
{
    let mut dir = home.to_owned();
    dir.append(tail);
    dirs.push(dir);
    assert(texts(dirs@) =~= texts(old(dirs)@).push(home@ + tail@));
}

fn push_dir(dirs: &mut Vec<String>, dir: &str)
    ensures
        texts(final(dirs)@) == texts(old(dirs)@).push(dir@),
{
    dirs.push(dir.to_owned());
    assert(texts(dirs@) =~= texts(old(dirs)@).push(dir@));
}

/// The texts of `parts` in a row, with `sep` between each two.
pub fn join(parts: &Vec<String>, sep: &str) -> (r: String)
    ensures
        r@ == joined_with(texts(parts@), sep@),
{
    let mut r = String::new();
    let mut i: usize = 0;
    let ghost all = texts(parts@);
    assert(all.take(0) =~= Seq::<Seq<char>>::empty());
    while i < parts.len()
        invariant
            i <= parts@.len(),
            all == texts(parts@),
            r@ == joined_with(all.take(i as int), sep@),
        decreases parts@.len() - i,
    {
        proof {
            let next = all.take(i + 1);
            assert(next.drop_last() =~= all.take(i as int));
            assert(next.last() == parts@[i as int]@);
        }
        if i > 0 {
            r.append(sep);
        }
        r.append(parts[i].as_str());
        proof {
            if i == 0 {
                assert(r@ =~= parts@[0]@);
            }
        }
        i += 1;
    }
    assert(all.take(i as int) =~= all);
    r
}

/// The search path to run programs with: the directories of the package
/// managers put before the search path `current` that was inherited.
/// `home` is the user's home, or profile on Windows, where it is known.
pub fn augmented_path(current: &str, home: Option<&str>, windows: bool) -> (path: String)
    ensures
        path@ == joined_with(
            search_dirs(
                current@,
                match home {
                    Some(h) => Some(h@),
                    None => None,
                },
                windows,
            ),
            separator(windows),
        ),
{
    let mut dirs: Vec<String> = Vec::new();
    assert(texts(dirs@) =~= Seq::<Seq<char>>::empty());
    let ghost home_text: Option<Seq<char>> = match home {
        Some(h) => Some(h@),
        None => None,
    };
    if windows {
        match home {
            Some(p) => {
                push_under(&mut dirs, p, "\\AppData\\Local\\Microsoft\\WinGet\\Links");
                push_under(&mut dirs, p, "\\scoop\\shims");
                push_under(&mut dirs, p, "\\AppData\\Local\\Programs\\Python\\Python313\\Scripts");
                push_under(&mut dirs, p, "\\AppData\\Local\\Programs\\Python\\Python312\\Scripts");
                push_under(&mut dirs, p, "\\AppData\\Local\\Programs\\Python\\Python311\\Scripts");
                push_under(&mut dirs, p, "\\AppData\\Local\\Programs\\Python\\Python310\\Scripts");
                push_under(&mut dirs, p, "\\AppData\\Local\\Programs\\Python\\Python3\\Scripts");
                push_under(&mut dirs, p, "\\.local\\bin");
                push_under(&mut dirs, p, "\\.deno\\bin");
            },
            None => {},
        }
        push_dir(&mut dirs, "C:\\ProgramData\\chocolatey\\bin");
        assert(texts(dirs@) =~= windows_dirs(home_text));
    } else {
        push_dir(&mut dirs, "/opt/homebrew/bin");
        push_dir(&mut dirs, "/usr/local/bin");
        push_dir(&mut dirs, "/usr/bin");
        push_dir(&mut dirs, "/bin");
        match home {
            Some(h) => {
                push_under(&mut dirs, h, "/.local/bin");
                push_under(&mut dirs, h, "/.deno/bin");
            },
            None => {},
        }
        assert(texts(dirs@) =~= unix_dirs(home_text));
    }
    if !current.is_empty() {
        push_dir(&mut dirs, current);
    }
    assert(texts(dirs@) =~= search_dirs(current@, home_text, windows));
    if windows {
        join(&dirs, ";")
    } else {
        join(&dirs, ":")
    }
}

/// The search path `base` with the directory `bin_dir`, in which the
/// application keeps its own programs, put before it.
pub fn augmented_path_with_app(bin_dir: &str, base: &str, windows: bool) -> (path: String)
    ensures
        path@ == bin_dir@ + separator(windows) + base@,
{
    let mut path = bin_dir.to_owned();
    if windows {
        path.append(";");
    } else {
        path.append(":");
    }
    path.append(base);
    path
}

} // verus!
