//! Addresses and conversion commands for a server's icon and pages.
use vstd::prelude::*;
use crate::text::{decimal_text, push_decimal};

verus! {

/// Whether `s` ends with `p`.
pub open spec fn ends_with(s: Seq<char>, p: Seq<char>) -> bool {
    p.len() <= s.len() && s.subrange(s.len() - p.len(), s.len() as int) == p
}

fn ends_with_gif(s: &str) -> (r: bool)
    ensures
        r == ends_with(s@, "gif"@),
{
    proof {
        reveal_strlit("gif");
    }
    let n = s.unicode_len();
    if n < 3 {
        return false;
    }
    let r = s.get_char(n - 3) == 'g' && s.get_char(n - 2) == 'i' && s.get_char(n - 1) == 'f';
    proof {
        let t = s@.subrange(n - 3, n as int);
        assert(t[0] == s@[n - 3] && t[1] == s@[n - 2] && t[2] == s@[n - 1]);
        if r {
            assert(t =~= "gif"@);
        }
    }
    r
}

pub open spec fn str_seq(v: Seq<String>) -> Seq<Seq<char>> {
    v.map_values(|s: String| s@)
}

fn push_str(v: &mut Vec<String>, s: &str)
    ensures
        str_seq(final(v)@) == str_seq(old(v)@).push(s@),
{
    v.push(String::from_str(s));
    assert(str_seq(v@) =~= str_seq(old(v)@).push(s@));
}

/// The program and arguments that convert the image at `input` to WebP at
/// `output`: an animated GIF keeps its frames.
pub fn webp_command(source_name: &str, input: &str, output: &str) -> (r: (String, Vec<String>))
    ensures
        ends_with(source_name@, "gif"@) ==> r.0@ == "gif2webp"@ && str_seq(r.1@) == seq![
            "-q"@,
            "100"@,
            "-m"@,
            "3"@,
            input@,
            "-o"@,
            output@,
            "-v"@,
        ],
        !ends_with(source_name@, "gif"@) ==> r.0@ == "cwebp"@ && str_seq(r.1@) == seq![
            "-q"@,
            "100"@,
            input@,
            "-o"@,
            output@,
            "-v"@,
        ],
{
    let gif = ends_with_gif(source_name);
    let mut args: Vec<String> = Vec::new();
    push_str(&mut args, "-q");
    push_str(&mut args, "100");
    if gif {
        push_str(&mut args, "-m");
        push_str(&mut args, "3");
    }
    push_str(&mut args, input);
    push_str(&mut args, "-o");
    push_str(&mut args, output);
    push_str(&mut args, "-v");
    let program = if gif {
        String::from_str("gif2webp")
    } else {
        String::from_str("cwebp")
    };
    (program, args)
}

/// What an avatar belongs to.
#[derive(Clone, Copy, Debug, PartialEq, Eq, Structural)]
pub enum AvatarOwner {
    Team,
    Server,
}

pub open spec fn avatar_dir(o: AvatarOwner) -> Seq<char> {
    match o {
        AvatarOwner::Team => "/avatars/teams/"@,
        AvatarOwner::Server => "/avatars/servers/"@,
    }
}

/// Where the converted avatar of a team or server is stored:
/// `<cdn>/avatars/<teams|servers>/<id>.webp`.
pub fn avatar_path(cdn_root: &str, owner: AvatarOwner, id: &str) -> (r: String)
    ensures
        r@ == cdn_root@ + avatar_dir(owner) + id@ + ".webp"@,
{
    let mut s = String::from_str(cdn_root);
    match owner {
        AvatarOwner::Team => s.append("/avatars/teams/"),
        AvatarOwner::Server => s.append("/avatars/servers/"),
    }
    s.append(id);
    s.append(".webp");
    s
}

/// The directory page of a server: `<frontend>/servers/<id>`.
pub fn server_page_url(frontend_url: &str, server_id: u64) -> (r: String)
    ensures
        r@ == frontend_url@ + "/servers/"@ + decimal_text(server_id as nat),
{
    let mut s = String::from_str(frontend_url);
    s.append("/servers/");
    push_decimal(&mut s, server_id);
    s
}

/// A server's icon, or the platform's default avatar when it has none.
pub fn icon_or_default(icon: Option<String>) -> (r: String)
    ensures
        r@ == match icon {
            Some(i) => i@,
            None => "https://cdn.discordapp.com/embed/avatars/0.png"@,
        },
{
    match icon {
        Some(i) => i,
        None => String::from_str("https://cdn.discordapp.com/embed/avatars/0.png"),
    }
}

} // verus!
