//! The settings: which are valid, what is saved of them, and where things are.

use crate::app;
use crate::app::{Known, Snapshot};
use crate::config;
use crate::config::{Config, ConfigModel, CredMode, Mode, MountModel};
use crate::manager;
use crate::path;
use crate::split;
use crate::supervisor::{State, StatusModel};
use crate::text;
use vstd::prelude::*;

verus! {

// ---------------------------------------------------------------------------
// What is saved
// ---------------------------------------------------------------------------

/// A saved mount has every setting that was given, each under its own name, up
/// to white space around it and slashes around the prefix. Only an empty cache
/// size is filled in.
pub proof fn lemma_saved_as_given(m: MountModel)
    ensures
        ({
            let s = app::cleaned(m);
            &&& s.name == text::trimmed(m.name)
            &&& s.bucket == text::trimmed(m.bucket)
            &&& s.prefix == text::trimmed_of(text::trimmed(m.prefix), text::Class::Only('/'))
            &&& s.mount_point == text::trimmed(m.mount_point)
            &&& s.region == text::trimmed(m.region)
            &&& s.endpoint == text::trimmed(m.endpoint)
            &&& s.rclone_remote == text::trimmed(m.rclone_remote)
            &&& s.access_key_id == text::trimmed(m.access_key_id)
            &&& s.secret_access_key == text::trimmed(m.secret_access_key)
            &&& s.mode == m.mode && s.enabled == m.enabled && s.read_only == m.read_only
            &&& s.provider == m.provider && s.env_auth == m.env_auth && s.aws_profile
                == m.aws_profile
            &&& s.write_back_secs == m.write_back_secs && s.dir_cache_secs == m.dir_cache_secs
            &&& s.extra_args == m.extra_args
            &&& text::trimmed(m.cache_max_size).len() > 0 ==> s.cache_max_size == m.cache_max_size
            &&& text::trimmed(m.cache_max_size).len() == 0 ==> s.cache_max_size == "10G"@
        }),
{
}

/// There is nothing to tidy in the settings.
pub open spec fn tidy(m: MountModel) -> bool {
    &&& text::trimmed(m.name) == m.name
    &&& text::trimmed(m.bucket) == m.bucket
    &&& text::trimmed(m.prefix) == m.prefix
    &&& text::trimmed_of(m.prefix, text::Class::Only('/')) == m.prefix
    &&& text::trimmed(m.mount_point) == m.mount_point
    &&& text::trimmed(m.region) == m.region
    &&& text::trimmed(m.endpoint) == m.endpoint
    &&& text::trimmed(m.rclone_remote) == m.rclone_remote
    &&& text::trimmed(m.access_key_id) == m.access_key_id
    &&& text::trimmed(m.secret_access_key) == m.secret_access_key
    &&& text::trimmed(m.cache_max_size).len() > 0
}

/// Tidy settings are saved unchanged.
pub proof fn lemma_tidy_saved_unchanged(m: MountModel)
    requires
        tidy(m),
    ensures
        app::cleaned(m) == m,
{
    assert(app::cleaned(m) =~= m);
}

/// White space around a setting makes no difference to what is saved: two mounts
/// whose settings differ in nothing else are saved alike.
pub proof fn lemma_white_space_makes_no_difference(a: MountModel, b: MountModel)
    requires
        text::trimmed(a.name) == text::trimmed(b.name),
        text::trimmed(a.secret_access_key) == text::trimmed(b.secret_access_key),
        text::trimmed(a.access_key_id) == text::trimmed(b.access_key_id),
        a == (MountModel {
            name: a.name,
            secret_access_key: a.secret_access_key,
            access_key_id: a.access_key_id,
            ..b
        }),
    ensures
        app::cleaned(a) == app::cleaned(b),
{
    assert(app::cleaned(a) =~= app::cleaned(b));
}

/// Saving a mount puts it where the one was that had the original name, the
/// first if there are several, or behind all others if there was none. Nothing
/// else in the settings changes.
pub proof fn lemma_where_it_is_saved(
    cfg: ConfigModel,
    m: MountModel,
    original: Option<Seq<char>>,
    home: Seq<char>,
)
    requires
        app::save_outcome(cfg, m, original, home) is Ok,
    ensures
        ({
            let after = app::save_outcome(cfg, m, original, home)->Ok_0;
            &&& after.start_at_login == cfg.start_at_login
            &&& after.rclone_path == cfg.rclone_path
            &&& after.health_check_interval_secs == cfg.health_check_interval_secs
            &&& match original {
                Some(name) if exists|i: int|
                    0 <= i < cfg.mounts.len() && (#[trigger] cfg.mounts[i]).name == name => exists|
                    k: int,
                |
                    0 <= k < cfg.mounts.len() && (#[trigger] cfg.mounts[k]).name == name && (forall|
                        j: int,
                    |
                        0 <= j < k ==> (#[trigger] cfg.mounts[j]).name != name) && after.mounts
                        == cfg.mounts.update(k, app::cleaned(m)),
                _ => after.mounts == cfg.mounts.push(app::cleaned(m)),
            }
        }),
{
    if let Some(name) = original {
        if manager::has_name(cfg.mounts, name) {
            app::lemma_edited(cfg.mounts, name);
            let k = app::edited(cfg.mounts, Some(name))->Some_0;
            assert(cfg.mounts[k].name == name);
        }
    }
}

/// A mount that was added can be edited under its own name, with or without a
/// change, and keeps its place; but it cannot be added a second time.
pub proof fn lemma_added_then_edited(cfg: ConfigModel, m: MountModel, home: Seq<char>)
    requires
        tidy(m),
        m.problem(cfg.mounts, home) is None,
    ensures
        ({
            let added = ConfigModel { mounts: cfg.mounts.push(m), ..cfg };
            let changed = MountModel { read_only: !m.read_only, enabled: !m.enabled, ..m };
            &&& app::save_outcome(cfg, m, None, home) == Ok::<ConfigModel, Seq<char>>(added)
            &&& app::save_outcome(added, m, Some(m.name), home) == Ok::<ConfigModel, Seq<char>>(
                added,
            )
            &&& app::save_outcome(added, changed, Some(m.name), home) == Ok::<
                ConfigModel,
                Seq<char>,
            >(ConfigModel { mounts: cfg.mounts.push(changed), ..cfg })
            &&& app::save_outcome(added, m, None, home) == Err::<ConfigModel, Seq<char>>(
                "A mount named '"@ + m.name + "' already exists."@,
            )
        }),
{
    let n = cfg.mounts.len() as int;
    let all = cfg.mounts.push(m);
    let changed = MountModel { read_only: !m.read_only, enabled: !m.enabled, ..m };
    lemma_tidy_saved_unchanged(m);
    lemma_tidy_saved_unchanged(changed);
    lemma_taken(m, cfg.mounts, m, home);
    assert(all[n] == m);
    assert(manager::has_name(all, m.name));
    app::lemma_edited(all, m.name);
    let k = app::edited(all, Some(m.name))->Some_0;
    if k < n {
        assert(cfg.mounts[k] == all[k]);
        assert(m.name_taken(cfg.mounts));
    }
    assert(app::besides(all, Some(n)) =~= cfg.mounts);
    assert(all.update(n, m) =~= all);
    assert(all.update(n, changed) =~= cfg.mounts.push(changed));
    assert(changed.name_taken(cfg.mounts) == m.name_taken(cfg.mounts));
    assert(changed.path_taken(cfg.mounts, home) == m.path_taken(cfg.mounts, home));
}

/// Deleting takes out the mounts of that name and no others, and keeps the order
/// of the rest.
pub proof fn lemma_deleted_by_name(mounts: Seq<MountModel>, name: Seq<char>, m: MountModel)
    ensures
        m.name == name ==> manager::others_than(mounts.push(m), name) == manager::others_than(
            mounts,
            name,
        ),
        m.name != name ==> manager::others_than(mounts.push(m), name) == manager::others_than(
            mounts,
            name,
        ).push(m),
        manager::others_than(Seq::empty(), name) == Seq::<MountModel>::empty(),
{
    assert(mounts.push(m).drop_last() =~= mounts);
}

// ---------------------------------------------------------------------------
// What is valid
// ---------------------------------------------------------------------------

/// Where the mount appears, with `~` for the home directory.
pub open spec fn place(m: MountModel, home: Seq<char>) -> Seq<char> {
    config::expanded(m.mount_point, home)
}

/// A mount is valid beside others just when it has a name of its own that can
/// name a folder, a bucket without a path, an absolute mount point of its own
/// that is not the root, a secret to an inline key that is used, and a delay.
pub proof fn lemma_valid_mounts(m: MountModel, others: Seq<MountModel>, home: Seq<char>)
    ensures
        m.problem(others, home) is None <==> {
            let name = text::trimmed(m.name);
            let mp = place(m, home);
            &&& name.len() > 0
            &&& !name.contains('/') && !name.contains(':') && name[0] != '.'
            &&& forall|i: int|
                0 <= i < others.len() ==> text::trimmed((#[trigger] others[i]).name) != name
            &&& text::trimmed(m.bucket).len() > 0
            &&& !m.bucket.contains('/')
            &&& text::trimmed(m.mount_point).len() > 0
            &&& mp.len() > 0 && mp[0] == '/'
            &&& path::components(mp).len() > 0
            &&& forall|i: int|
                0 <= i < others.len() ==> !path::equal_paths(
                    place(#[trigger] others[i], home),
                    mp,
                )
            &&& text::trimmed(m.rclone_remote).len() > 0 || text::trimmed(m.access_key_id).len()
                == 0 || text::trimmed(m.secret_access_key).len() > 0
            &&& m.write_back_secs >= 1
        },
{
    reveal_strlit(".");
    let name = text::trimmed(m.name);
    if name.len() > 0 {
        if "."@.is_prefix_of(name) {
            assert("."@ =~= name.subrange(0, "."@.len() as int));
            assert(name.subrange(0, 1)[0] == name[0]);
        }
        if name[0] == '.' {
            assert("."@ =~= name.subrange(0, "."@.len() as int));
        }
        assert("."@.is_prefix_of(name) <==> name[0] == '.');
    }
    assert forall|i: int| 0 <= i < others.len() implies (#[trigger] others[i]).path_in(home)
        == place(others[i], home) by {}
}

/// A mount that is valid but for one thing is refused for that: a missing or
/// unfit name or one that is taken, a missing bucket or one with a path, a
/// missing, relative or shared mount point or the root, a missing secret, no
/// delay.
pub proof fn lemma_refused_for_its_fault(
    m: MountModel,
    others: Seq<MountModel>,
    o: MountModel,
    relative: Seq<char>,
    home: Seq<char>,
)
    requires
        m.problem(others, home) is None,
        relative.len() > 0,
        !text::white(relative[0]),
        !text::white(relative.last()),
        relative[0] != '/',
        relative[0] != '~',
    ensures
        ({
            let none = Seq::<char>::empty();
            let name = text::trimmed(m.name);
            let fault = |x: MountModel| x.problem(others, home);
            &&& fault(MountModel { name: none, ..m }) == Some("Name is required."@)
            &&& fault(MountModel { name: seq!['.'] + name, ..m }) == Some(
                "Name may not contain '/' or ':' or start with '.'"@,
            )
            &&& m.problem(others.push(MountModel { name: m.name, ..o }), home) == Some(
                "A mount named '"@ + name + "' already exists."@,
            )
            &&& fault(MountModel { bucket: none, ..m }) == Some("Bucket is required."@)
            &&& fault(MountModel { bucket: text::trimmed(m.bucket).push('/'), ..m }) == Some(
                "Bucket must be just the bucket name; put sub-folders in 'Path in bucket'."@,
            )
            &&& fault(MountModel { mount_point: none, ..m }) == Some("Mount point is required."@)
            &&& fault(MountModel { mount_point: relative, ..m }) == Some(
                "Mount point must be an absolute path (or start with ~)."@,
            )
            &&& fault(MountModel { mount_point: seq!['/'], ..m }) == Some(
                "Mount point cannot be the root directory."@,
            )
            &&& text::trimmed(o.name) != name ==> m.problem(
                others.push(MountModel { mount_point: m.mount_point, ..o }),
                home,
            ) == Some("Another mount already uses that mount point."@)
            &&& m.credentials() == CredMode::Keys ==> fault(
                MountModel { secret_access_key: none, ..m },
            ) == Some("Secret access key is required when an access key ID is given."@)
            &&& fault(MountModel { write_back_secs: 0, ..m }) == Some(
                "Write-back delay must be at least 1 second."@,
            )
        }),
{
    let none = Seq::<char>::empty();
    let name = text::trimmed(m.name);
    text::lemma_trimmed_of(none, text::Class::Space);
    text::lemma_trimmed_of(m.name, text::Class::Space);
    lemma_dotted(m, others, home);
    lemma_taken(m, others, MountModel { name: m.name, ..o }, home);
    lemma_taken(m, others, MountModel { mount_point: m.mount_point, ..o }, home);
    lemma_odd_places(relative, home);
    let bucket = text::trimmed(m.bucket);
    text::lemma_trimmed_of(m.bucket, text::Class::Space);
    assert(bucket.push('/')[bucket.len() as int] == '/');
    assert(bucket.push('/')[0] == bucket[0]);
    crate::laws::rclone::lemma_nothing_to_trim(bucket.push('/'));
    let rel = MountModel { mount_point: relative, ..m };
    let root = MountModel { mount_point: seq!['/'], ..m };
    crate::laws::rclone::lemma_nothing_to_trim(relative);
    crate::laws::rclone::lemma_nothing_to_trim(seq!['/']);
    assert(rel.name_taken(others) == m.name_taken(others));
    assert(root.name_taken(others) == m.name_taken(others));
}

proof fn lemma_dotted(m: MountModel, others: Seq<MountModel>, home: Seq<char>)
    requires
        m.problem(others, home) is None,
    ensures
        (MountModel { name: seq!['.'] + text::trimmed(m.name), ..m }).problem(others, home) == Some(
            "Name may not contain '/' or ':' or start with '.'"@,
        ),
{
    reveal_strlit(".");
    let name = text::trimmed(m.name);
    let dotted = seq!['.'] + name;
    text::lemma_trimmed_of(m.name, text::Class::Space);
    assert(dotted.last() == name.last());
    crate::laws::rclone::lemma_nothing_to_trim(dotted);
    assert("."@ =~= dotted.subrange(0, "."@.len() as int));
}

proof fn lemma_taken(m: MountModel, others: Seq<MountModel>, o: MountModel, home: Seq<char>)
    requires
        m.problem(others, home) is None,
    ensures
        o.name == m.name ==> m.problem(others.push(o), home) == Some(
            "A mount named '"@ + text::trimmed(m.name) + "' already exists."@,
        ),
        text::trimmed(o.name) != text::trimmed(m.name) && o.mount_point == m.mount_point
            ==> m.problem(others.push(o), home) == Some(
            "Another mount already uses that mount point."@,
        ),
{
    let all = others.push(o);
    assert(all[others.len() as int] == o);
    if text::trimmed(o.name) != text::trimmed(m.name) && m.name_taken(all) {
        let i = choose|i: int|
            0 <= i < all.len() && text::trimmed((#[trigger] all[i]).name) == text::trimmed(m.name);
        assert(others[i] == all[i]);
    }
}

proof fn lemma_odd_places(relative: Seq<char>, home: Seq<char>)
    requires
        relative.len() > 0,
        !text::white(relative[0]),
        !text::white(relative.last()),
        relative[0] != '/',
        relative[0] != '~',
    ensures
        config::expanded(relative, home) == relative,
        config::expanded(seq!['/'], home) == seq!['/'],
        path::components(seq!['/']).len() == 0,
{
    reveal_strlit("~");
    reveal_strlit("~/");
    let root = seq!['/'];
    let none = Seq::<char>::empty();
    crate::laws::rclone::lemma_nothing_to_trim(relative);
    crate::laws::rclone::lemma_nothing_to_trim(root);
    assert(relative != "~"@ && root != "~"@) by {
        assert("~"@[0] == '~');
    }
    if "~/"@.is_prefix_of(relative) {
        assert("~/"@ =~= relative.subrange(0, 2));
        assert("~/"@[0] == relative[0]);
    }
    if "~/"@.is_prefix_of(root) {
        assert("~/"@.len() <= root.len());
    }
    let k = text::Class::Only('/');
    split::lemma_pieces_concat(none, '/', none, k);
    split::lemma_one_piece(none, k);
    assert(none + root + none =~= root);
    path::lemma_kept_concat(seq![none], seq![none]);
    path::lemma_kept_one(none);
}

/// A new mount is a mount of a bucket at AWS: enabled, writable, uploading five
/// seconds after the last change, looking at the bucket every minute, with ten
/// gigabytes of cache, and nothing else filled in.
pub proof fn lemma_new_mount()
    ensures
        ({
            let m = MountModel::fresh();
            &&& m.mode == Mode::Mount && m.enabled && !m.read_only && !m.env_auth
            &&& m.provider == "AWS"@ && m.cache_max_size == "10G"@
            &&& m.write_back_secs == 5 && m.dir_cache_secs == 60
            &&& m.name.len() == 0 && m.bucket.len() == 0 && m.prefix.len() == 0
            &&& m.mount_point.len() == 0 && m.region.len() == 0 && m.endpoint.len() == 0
            &&& m.access_key_id.len() == 0 && m.secret_access_key.len() == 0
            &&& m.rclone_remote.len() == 0 && m.aws_profile.len() == 0 && m.extra_args.len() == 0
        }),
{
}

/// Credentials come from a remote of the user's own if one is named, else from
/// an inline key if one is given, else from the default chain.
pub proof fn lemma_credentials(m: MountModel)
    ensures
        m.credentials() == CredMode::RcloneRemote <==> text::trimmed(m.rclone_remote).len() > 0,
        m.credentials() == CredMode::Keys <==> text::trimmed(m.rclone_remote).len() == 0
            && text::trimmed(m.access_key_id).len() > 0,
        m.credentials() == CredMode::EnvAuth <==> text::trimmed(m.rclone_remote).len() == 0
            && text::trimmed(m.access_key_id).len() == 0,
{
}

// ---------------------------------------------------------------------------
// Where things are
// ---------------------------------------------------------------------------

/// A home directory as systems name it: absolute, and not ending in a slash.
pub open spec fn usual_home(home: Seq<char>) -> bool {
    home.len() > 1 && home[0] == '/' && home.last() != '/'
}

/// `~` alone is the home directory, what stands below `~/` lies below it, and any
/// other path is meant as it stands.
pub proof fn lemma_tilde(home: Seq<char>, rest: Seq<char>)
    requires
        usual_home(home),
        rest.len() > 0,
        rest[0] != '/',
        !text::white(rest.last()),
    ensures
        config::expanded("~"@, home) == home,
        config::expanded("~/"@ + rest, home) == home + "/"@ + rest,
        config::expanded("/"@ + rest, home) == "/"@ + rest,
{
    reveal_strlit("~");
    reveal_strlit("~/");
    reveal_strlit("/");
    let below = "~/"@ + rest;
    let whole = "/"@ + rest;
    assert(!text::white('~') && !text::white('/'));
    assert(below[0] == '~' && below.last() == rest.last());
    assert(whole[0] == '/' && whole.last() == rest.last());
    crate::laws::rclone::lemma_nothing_to_trim("~"@);
    crate::laws::rclone::lemma_nothing_to_trim(below);
    crate::laws::rclone::lemma_nothing_to_trim(whole);
    assert(below.subrange(0, 2) =~= "~/"@);
    assert(below.subrange(2, below.len() as int) =~= rest);
    assert(below.len() > 1);
    assert(home + seq!['/'] + rest =~= home + "/"@ + rest);
    if "~/"@.is_prefix_of(whole) {
        assert(whole.subrange(0, 2)[0] == "~/"@[0]);
    }
    assert(whole != "~"@) by {
        assert(whole[0] != "~"@[0]);
    }
}

/// The application keeps its logs, caches and state in the user's library, under
/// its own name, and its settings in the user's config directory or where the
/// environment says.
pub proof fn lemma_directories(home: Seq<char>, asked: Seq<char>)
    requires
        usual_home(home),
        asked.len() > 0,
    ensures
        config::library_path(home, "Logs"@) == home + "/Library/Logs/BucketMount"@,
        config::library_path(home, "Caches"@) == home + "/Library/Caches/BucketMount"@,
        config::library_path(home, "Application Support"@) == home
            + "/Library/Application Support/BucketMount"@,
        config::config_dir_path(None, home) == home + "/.config/bucketmount"@,
        config::config_dir_path(Some(Seq::empty()), home) == home + "/.config/bucketmount"@,
        config::config_dir_path(Some(asked), home) == asked,
        config::config_file_path(None, home) == home + "/.config/bucketmount/config.toml"@,
{
    reveal_strlit("Library");
    reveal_strlit("Logs");
    reveal_strlit("Caches");
    reveal_strlit("Application Support");
    reveal_strlit("BucketMount");
    reveal_strlit(".config");
    reveal_strlit("bucketmount");
    reveal_strlit("config.toml");
    reveal_strlit("/Library/Logs/BucketMount");
    reveal_strlit("/Library/Caches/BucketMount");
    reveal_strlit("/Library/Application Support/BucketMount");
    reveal_strlit("/.config/bucketmount");
    reveal_strlit("/.config/bucketmount/config.toml");
    assert(config::library_path(home, "Logs"@) =~= home + "/Library/Logs/BucketMount"@);
    assert(config::library_path(home, "Caches"@) =~= home + "/Library/Caches/BucketMount"@);
    assert(config::library_path(home, "Application Support"@) =~= home
        + "/Library/Application Support/BucketMount"@);
    assert(config::config_dir_path(None, home) =~= home + "/.config/bucketmount"@);
    assert(config::config_file_path(None, home) =~= home + "/.config/bucketmount/config.toml"@);
}

// ---------------------------------------------------------------------------
// What the window shows
// ---------------------------------------------------------------------------

/// The window shows of a mount what its status says, its settings, its path in
/// full and in short, and how many seconds ago all was last well.
pub proof fn lemma_shown_as_it_is(m: MountModel, s: StatusModel, now: u64, home: Seq<char>)
    ensures
        ({
            let v = app::view_of(m, s, now, home);
            &&& v.config == m
            &&& v.state == s.state && v.detail == s.detail && v.mounted == s.mounted
            &&& v.uploads_pending == s.uploads_pending && v.restarts == s.restarts && v.pid == s.pid
            &&& v.state_label == s.state.title() && v.color == s.state.colour_text()
            &&& v.mount_path == config::expanded(m.mount_point, home)
            &&& v.mount_path_short == config::collapsed(v.mount_path, home)
            &&& s.last_ok is None ==> v.last_ok_secs is None
            &&& s.last_ok matches Some(t) ==> (t <= now ==> (v.last_ok_secs matches Some(n) && n
                * 1_000_000_000 <= now - t < (n + 1) * 1_000_000_000))
        }),
{
}

/// The window shows each mount in the order of the settings, with what is known
/// of it, and asks about starting at login only once the settings could be read,
/// the user has not answered yet and has opened the application.
pub proof fn lemma_snapshot(r: Snapshot, cfg: Config, known: Known, home: Seq<char>, i: int)
    requires
        app::shows(r, cfg, known, home),
        usual_home(home),
        0 <= i < cfg@.mounts.len(),
    ensures
        r.mounts@.len() == cfg@.mounts.len(),
        ({
            let m = cfg@.mounts[i];
            let v = r.mounts@[i]@;
            let s = manager::status_of(manager::known_models(known.statuses@), m.name);
            &&& v.config == m
            &&& s matches Some(s) ==> v.state == s.state && v.detail == s.detail && v.mounted
                == s.mounted
            &&& s is None ==> v.state == State::Disabled && v.detail == "Not started"@ && !v.mounted
        }),
        r.show_login_prompt <==> cfg@.start_at_login is None && known.config_error is None
            && !known.background,
        r.start_at_login == cfg@.start_at_login,
        r.version@ == known.version@,
        known.config_error matches Some(e) ==> (r.config_error matches Some(x) && x@ == e@),
        known.config_error is None ==> r.config_error is None,
        known.rclone matches Some(p) ==> (r.rclone_path matches Some(x) && x@ == config::collapsed(
            p@,
            home,
        )),
        known.rclone is None ==> r.rclone_path is None,
        known.rclone_version matches Some(v) ==> (r.rclone_version matches Some(x) && x@ == v@),
        known.rclone_version is None ==> r.rclone_version is None,
        r.logs_dir@ == config::collapsed(home + "/Library/Logs/BucketMount"@, home),
        known.config_dir is None ==> r.config_path@ == config::collapsed(
            home + "/.config/bucketmount/config.toml"@,
            home,
        ),
{
    lemma_directories(home, home);
    assert(r.mounts@[i]@.config == cfg@.mounts[i]);
}

/// A mount is busy when it is mounting, syncing or uploading, or when it is a
/// synced folder and bisync runs; a mounted volume with nothing to upload is not,
/// though its rclone runs.
pub proof fn lemma_busy(m: MountModel, s: StatusModel)
    ensures
        s.state == State::Starting || s.state == State::Syncing || s.uploads_pending > 0
            ==> app::busy_with(m, s),
        m.mode == Mode::Sync ==> (s.pid is Some ==> app::busy_with(m, s)),
        m.mode == Mode::Mount && s.state == State::Connected && s.uploads_pending == 0
            ==> !app::busy_with(m, s),
        s.pid is None && s.uploads_pending == 0 && s.state != State::Starting && s.state
            != State::Syncing ==> !app::busy_with(m, s),
{
}

} // verus!
