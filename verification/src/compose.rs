//! Environment composition for a launch: fixed layers applied over the
//! global override file's variables, later layers winning on key collisions.

use vstd::prelude::*;

use crate::envmap::EnvMap;
use crate::game::Game;
use crate::text::dec_str;

verus! {

broadcast use vstd::string::group_string_axioms;

/// Application-wide launch settings, as the caller read them from its
/// configuration store.
pub struct AppSettings {
    /// Prefer the Wayland video driver.
    pub wayland_driver: bool,
    /// Enable high dynamic range.
    pub enable_hdr: bool,
    /// Enable the 64-bit-only Windows emulation mode.
    pub enable_wow64: bool,
    /// Force the discrete GPU vendor library.
    pub discrete_gpu: bool,
    /// Emit verbose compatibility-layer logs.
    pub enable_logging: bool,
}

impl Default for AppSettings {
    /// Every toggle off.
    fn default() -> (r: AppSettings)
        ensures
            !r.wayland_driver,
            !r.enable_hdr,
            !r.enable_wow64,
            !r.discrete_gpu,
            !r.enable_logging,
    {
        AppSettings {
            wayland_driver: false,
            enable_hdr: false,
            enable_wow64: false,
            discrete_gpu: false,
            enable_logging: false,
        }
    }
}

/// The Lossless-Scaling layer: a legacy-compatibility flag, the multiplier
/// when positive, performance and HDR modes always, and the flow-scale
/// variable only when its toggle is explicitly on.
pub open spec fn lossless_layer(
    m: Map<Seq<char>, Seq<char>>,
    game: Game,
) -> Map<Seq<char>, Seq<char>> {
    let m = m.insert("LSFG_LEGACY"@, "1"@);
    let m = if game.lossless_multiplier > 0 {
        m.insert("LSFG_MULTIPLIER"@, dec_str(game.lossless_multiplier as nat))
    } else {
        m
    };
    let m = m.insert(
        "LSFG_PERFORMANCE_MODE"@,
        if game.lossless_performance {
            "1"@
        } else {
            "0"@
        },
    );
    let m = m.insert(
        "LSFG_HDR_MODE"@,
        if game.lossless_hdr {
            "1"@
        } else {
            "0"@
        },
    );
    if game.lossless_flow {
        m.insert("LSFG_FLOW_SCALE"@, "1.0"@)
    } else {
        m
    }
}

/// The composed launch environment: the override file's variables, then the
/// fixed layers in authority order. Later layers overwrite earlier ones on
/// the same key; nothing is ever removed.
pub open spec fn compose_spec(
    base: Map<Seq<char>, Seq<char>>,
    game: Game,
    runner_path: Seq<char>,
    mangohud_found: bool,
    settings: AppSettings,
) -> Map<Seq<char>, Seq<char>> {
    let m = base.insert("WINEPREFIX"@, game.prefix@);
    let m = if runner_path.len() > 0 {
        m.insert("PROTONPATH"@, runner_path)
    } else {
        m
    };
    let m = m.insert("GAMEID"@, game.gameid@);
    let m = if game.mangohud && mangohud_found {
        m.insert("MANGOHUD"@, "1"@)
    } else {
        m
    };
    let m = if game.disable_hidraw {
        m.insert("WINE_DISABLE_HIDRAW"@, "1"@)
    } else {
        m
    };
    let m = if settings.wayland_driver {
        m.insert("PROTON_ENABLE_WAYLAND"@, "1"@)
    } else {
        m
    };
    let m = if settings.enable_hdr {
        m.insert("ENABLE_HDR"@, "1"@)
    } else {
        m
    };
    let m = if settings.enable_wow64 {
        m.insert("PROTON_USE_WOW64"@, "1"@)
    } else {
        m
    };
    let m = if game.lossless_enabled {
        lossless_layer(m, game)
    } else {
        m
    };
    let m = if settings.discrete_gpu {
        m.insert("__GLX_VENDOR_LIBRARY_NAME"@, "nvidia"@)
    } else {
        m
    };
    let m = if game.protonfix@.len() > 0 {
        m.insert("PROTON_NO_FSYNC"@, "1"@).insert("PROTON_NO_ESYNC"@, "1"@)
    } else {
        m
    };
    if settings.enable_logging {
        m.insert("WINEDEBUG"@, "+all"@).insert("WINE_MONO_TRACE"@, "E:System.Windows.Forms"@)
    } else {
        m
    }
}

/// Build the environment for launching `game`: the override file's variables
/// first, then the prefix, runner path (when resolved to a non-empty path),
/// game identifier, feature toggles, compatibility fixes, and diagnostic
/// logging, in that authority order. Never fails: absent inputs merely leave
/// their variables out.
pub fn compose(
    overrides: &EnvMap,
    game: &Game,
    runner_path: &str,
    mangohud_found: bool,
    settings: &AppSettings,
) -> (r: EnvMap)
    requires
        overrides.wf(),
    ensures
        r.wf(),
        r.map() == compose_spec(overrides.map(), *game, runner_path@, mangohud_found, *settings),
{
    let mut env = overrides.duplicate();
    env.insert(String::from_str("WINEPREFIX"), game.prefix.clone());
    if runner_path.unicode_len() > 0 {
        env.insert(String::from_str("PROTONPATH"), String::from_str(runner_path));
    }
    env.insert(String::from_str("GAMEID"), game.gameid.clone());
    if game.mangohud && mangohud_found {
        env.insert(String::from_str("MANGOHUD"), String::from_str("1"));
    }
    if game.disable_hidraw {
        env.insert(String::from_str("WINE_DISABLE_HIDRAW"), String::from_str("1"));
    }
    if settings.wayland_driver {
        env.insert(String::from_str("PROTON_ENABLE_WAYLAND"), String::from_str("1"));
    }
    if settings.enable_hdr {
        env.insert(String::from_str("ENABLE_HDR"), String::from_str("1"));
    }
    if settings.enable_wow64 {
        env.insert(String::from_str("PROTON_USE_WOW64"), String::from_str("1"));
    }
    if game.lossless_enabled {
        env.insert(String::from_str("LSFG_LEGACY"), String::from_str("1"));
        if game.lossless_multiplier > 0 {
            env.insert(
                String::from_str("LSFG_MULTIPLIER"),
                crate::text::u64_to_string(game.lossless_multiplier as u64),
            );
        }
        env.insert(
            String::from_str("LSFG_PERFORMANCE_MODE"),
            if game.lossless_performance {
                String::from_str("1")
            } else {
                String::from_str("0")
            },
        );
        env.insert(
            String::from_str("LSFG_HDR_MODE"),
            if game.lossless_hdr {
                String::from_str("1")
            } else {
                String::from_str("0")
            },
        );
        if game.lossless_flow {
            env.insert(String::from_str("LSFG_FLOW_SCALE"), String::from_str("1.0"));
        }
    }
    if settings.discrete_gpu {
        env.insert(
            String::from_str("__GLX_VENDOR_LIBRARY_NAME"),
            String::from_str("nvidia"),
        );
    }
    if game.protonfix.unicode_len() > 0 {
        env.insert(String::from_str("PROTON_NO_FSYNC"), String::from_str("1"));
        env.insert(String::from_str("PROTON_NO_ESYNC"), String::from_str("1"));
    }
    if settings.enable_logging {
        env.insert(String::from_str("WINEDEBUG"), String::from_str("+all"));
        env.insert(
            String::from_str("WINE_MONO_TRACE"),
            String::from_str("E:System.Windows.Forms"),
        );
    }
    env
}

proof fn reveal_layer_keys()
    ensures
        "WINEPREFIX"@ != "PROTONPATH"@,
        "WINEPREFIX"@ != "GAMEID"@,
        "WINEPREFIX"@ != "MANGOHUD"@,
        "WINEPREFIX"@ != "WINE_DISABLE_HIDRAW"@,
        "WINEPREFIX"@ != "PROTON_ENABLE_WAYLAND"@,
        "WINEPREFIX"@ != "ENABLE_HDR"@,
        "WINEPREFIX"@ != "PROTON_USE_WOW64"@,
        "WINEPREFIX"@ != "LSFG_LEGACY"@,
        "WINEPREFIX"@ != "LSFG_MULTIPLIER"@,
        "WINEPREFIX"@ != "LSFG_PERFORMANCE_MODE"@,
        "WINEPREFIX"@ != "LSFG_HDR_MODE"@,
        "WINEPREFIX"@ != "LSFG_FLOW_SCALE"@,
        "WINEPREFIX"@ != "__GLX_VENDOR_LIBRARY_NAME"@,
        "WINEPREFIX"@ != "PROTON_NO_FSYNC"@,
        "WINEPREFIX"@ != "PROTON_NO_ESYNC"@,
        "WINEPREFIX"@ != "WINEDEBUG"@,
        "WINEPREFIX"@ != "WINE_MONO_TRACE"@,
        "GAMEID"@ != "PROTONPATH"@,
        "GAMEID"@ != "MANGOHUD"@,
        "GAMEID"@ != "WINE_DISABLE_HIDRAW"@,
        "GAMEID"@ != "PROTON_ENABLE_WAYLAND"@,
        "GAMEID"@ != "ENABLE_HDR"@,
        "GAMEID"@ != "PROTON_USE_WOW64"@,
        "GAMEID"@ != "LSFG_LEGACY"@,
        "GAMEID"@ != "LSFG_MULTIPLIER"@,
        "GAMEID"@ != "LSFG_PERFORMANCE_MODE"@,
        "GAMEID"@ != "LSFG_HDR_MODE"@,
        "GAMEID"@ != "LSFG_FLOW_SCALE"@,
        "GAMEID"@ != "__GLX_VENDOR_LIBRARY_NAME"@,
        "GAMEID"@ != "PROTON_NO_FSYNC"@,
        "GAMEID"@ != "PROTON_NO_ESYNC"@,
        "GAMEID"@ != "WINEDEBUG"@,
        "GAMEID"@ != "WINE_MONO_TRACE"@,
        "LSFG_FLOW_SCALE"@ != "PROTONPATH"@,
        "LSFG_FLOW_SCALE"@ != "MANGOHUD"@,
        "LSFG_FLOW_SCALE"@ != "WINE_DISABLE_HIDRAW"@,
        "LSFG_FLOW_SCALE"@ != "PROTON_ENABLE_WAYLAND"@,
        "LSFG_FLOW_SCALE"@ != "ENABLE_HDR"@,
        "LSFG_FLOW_SCALE"@ != "PROTON_USE_WOW64"@,
        "LSFG_FLOW_SCALE"@ != "LSFG_LEGACY"@,
        "LSFG_FLOW_SCALE"@ != "LSFG_MULTIPLIER"@,
        "LSFG_FLOW_SCALE"@ != "LSFG_PERFORMANCE_MODE"@,
        "LSFG_FLOW_SCALE"@ != "LSFG_HDR_MODE"@,
        "LSFG_FLOW_SCALE"@ != "__GLX_VENDOR_LIBRARY_NAME"@,
        "LSFG_FLOW_SCALE"@ != "PROTON_NO_FSYNC"@,
        "LSFG_FLOW_SCALE"@ != "PROTON_NO_ESYNC"@,
        "LSFG_FLOW_SCALE"@ != "WINEDEBUG"@,
        "LSFG_FLOW_SCALE"@ != "WINE_MONO_TRACE"@,
        "LSFG_MULTIPLIER"@ != "PROTONPATH"@,
        "LSFG_MULTIPLIER"@ != "MANGOHUD"@,
        "LSFG_MULTIPLIER"@ != "WINE_DISABLE_HIDRAW"@,
        "LSFG_MULTIPLIER"@ != "PROTON_ENABLE_WAYLAND"@,
        "LSFG_MULTIPLIER"@ != "ENABLE_HDR"@,
        "LSFG_MULTIPLIER"@ != "PROTON_USE_WOW64"@,
        "LSFG_MULTIPLIER"@ != "LSFG_LEGACY"@,
        "LSFG_MULTIPLIER"@ != "LSFG_PERFORMANCE_MODE"@,
        "LSFG_MULTIPLIER"@ != "LSFG_HDR_MODE"@,
        "LSFG_MULTIPLIER"@ != "__GLX_VENDOR_LIBRARY_NAME"@,
        "LSFG_MULTIPLIER"@ != "PROTON_NO_FSYNC"@,
        "LSFG_MULTIPLIER"@ != "PROTON_NO_ESYNC"@,
        "LSFG_MULTIPLIER"@ != "WINEDEBUG"@,
        "LSFG_MULTIPLIER"@ != "WINE_MONO_TRACE"@,
{
    reveal_strlit("WINEPREFIX");
    reveal_strlit("PROTONPATH");
    reveal_strlit("GAMEID");
    reveal_strlit("MANGOHUD");
    reveal_strlit("WINE_DISABLE_HIDRAW");
    reveal_strlit("PROTON_ENABLE_WAYLAND");
    reveal_strlit("ENABLE_HDR");
    reveal_strlit("PROTON_USE_WOW64");
    reveal_strlit("LSFG_LEGACY");
    reveal_strlit("LSFG_MULTIPLIER");
    reveal_strlit("LSFG_PERFORMANCE_MODE");
    reveal_strlit("LSFG_HDR_MODE");
    reveal_strlit("LSFG_FLOW_SCALE");
    reveal_strlit("__GLX_VENDOR_LIBRARY_NAME");
    reveal_strlit("PROTON_NO_FSYNC");
    reveal_strlit("PROTON_NO_ESYNC");
    reveal_strlit("WINEDEBUG");
    reveal_strlit("WINE_MONO_TRACE");
    assert("WINEPREFIX"@.len() == 10);
    assert("PROTONPATH"@.len() == 10);
    assert("GAMEID"@.len() == 6);
    assert("MANGOHUD"@.len() == 8);
    assert("WINE_DISABLE_HIDRAW"@.len() == 19);
    assert("PROTON_ENABLE_WAYLAND"@.len() == 21);
    assert("ENABLE_HDR"@.len() == 10);
    assert("PROTON_USE_WOW64"@.len() == 16);
    assert("LSFG_LEGACY"@.len() == 11);
    assert("LSFG_MULTIPLIER"@.len() == 15);
    assert("LSFG_PERFORMANCE_MODE"@.len() == 21);
    assert("LSFG_HDR_MODE"@.len() == 13);
    assert("LSFG_FLOW_SCALE"@.len() == 15);
    assert("__GLX_VENDOR_LIBRARY_NAME"@.len() == 25);
    assert("PROTON_NO_FSYNC"@.len() == 15);
    assert("PROTON_NO_ESYNC"@.len() == 15);
    assert("WINEDEBUG"@.len() == 9);
    assert("WINE_MONO_TRACE"@.len() == 15);
    assert("WINEPREFIX"@[0] == 'W');
    assert("PROTONPATH"@[0] == 'P');
    assert("ENABLE_HDR"@[0] == 'E');
    assert("LSFG_FLOW_SCALE"@[5] == 'F');
    assert("LSFG_MULTIPLIER"@[5] == 'M');
    assert("LSFG_FLOW_SCALE"@[0] == 'L');
    assert("PROTON_NO_FSYNC"@[0] == 'P');
    assert("PROTON_NO_ESYNC"@[0] == 'P');
    assert("WINE_MONO_TRACE"@[0] == 'W');
    assert("LSFG_MULTIPLIER"@[0] == 'L');
}

/// Composition depends only on the override mapping, not on the order its
/// entries were written in, and on nothing else: equal inputs give equal
/// environments.
pub proof fn lemma_compose_deterministic(
    o1: EnvMap,
    o2: EnvMap,
    game: Game,
    runner_path: Seq<char>,
    mangohud_found: bool,
    settings: AppSettings,
)
    requires
        o1.map() == o2.map(),
    ensures
        compose_spec(o1.map(), game, runner_path, mangohud_found, settings) == compose_spec(
            o2.map(),
            game,
            runner_path,
            mangohud_found,
            settings,
        ),
{
}

/// Two layers that set different variables commute: applying them in
/// either order yields the same mapping. Only precedence between layers
/// that write the same key is significant.
pub proof fn lemma_distinct_layers_commute(
    m: Map<Seq<char>, Seq<char>>,
    k1: Seq<char>,
    v1: Seq<char>,
    k2: Seq<char>,
    v2: Seq<char>,
)
    requires
        k1 != k2,
    ensures
        m.insert(k1, v1).insert(k2, v2) == m.insert(k2, v2).insert(k1, v1),
{
    assert(m.insert(k1, v1).insert(k2, v2) =~= m.insert(k2, v2).insert(k1, v1));
}

/// Layer precedence: whatever the override file says, the prefix-path
/// variable always carries the game's own prefix, and the game-identifier
/// variable the game's own identifier.
pub proof fn lemma_layer_precedence(
    base: Map<Seq<char>, Seq<char>>,
    game: Game,
    runner_path: Seq<char>,
    mangohud_found: bool,
    settings: AppSettings,
)
    ensures
        ({
            let m = compose_spec(base, game, runner_path, mangohud_found, settings);
            &&& m.contains_key("WINEPREFIX"@)
            &&& m["WINEPREFIX"@] == game.prefix@
            &&& m.contains_key("GAMEID"@)
            &&& m["GAMEID"@] == game.gameid@
        }),
{
    reveal_layer_keys();
}

/// The flow-scale variable is present exactly when scaling is enabled and the
/// flow toggle is explicitly on; a false toggle leaves it out even with
/// scaling enabled, as long as the override file does not set it itself.
pub proof fn lemma_flow_scale_iff(
    base: Map<Seq<char>, Seq<char>>,
    game: Game,
    runner_path: Seq<char>,
    mangohud_found: bool,
    settings: AppSettings,
)
    requires
        !base.contains_key("LSFG_FLOW_SCALE"@),
    ensures
        compose_spec(base, game, runner_path, mangohud_found, settings).contains_key(
            "LSFG_FLOW_SCALE"@,
        ) <==> (game.lossless_enabled && game.lossless_flow),
{
    reveal_layer_keys();
}

/// With scaling enabled but the multiplier at zero, the multiplier variable
/// is absent while the legacy, performance-mode and HDR-mode variables are
/// present, as long as the override file does not set the multiplier itself.
pub proof fn lemma_multiplier_omitted_when_zero(
    base: Map<Seq<char>, Seq<char>>,
    game: Game,
    runner_path: Seq<char>,
    mangohud_found: bool,
    settings: AppSettings,
)
    requires
        !base.contains_key("LSFG_MULTIPLIER"@),
        game.lossless_enabled,
        game.lossless_multiplier == 0,
    ensures
        ({
            let m = compose_spec(base, game, runner_path, mangohud_found, settings);
            &&& !m.contains_key("LSFG_MULTIPLIER"@)
            &&& m.contains_key("LSFG_LEGACY"@)
            &&& m.contains_key("LSFG_PERFORMANCE_MODE"@)
            &&& m.contains_key("LSFG_HDR_MODE"@)
        }),
{
    reveal_layer_keys();
}

} // verus!
