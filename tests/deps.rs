use maplibre_native::{parse_deps, try_parse_deps};

#[test]
fn test_parse_deps() {
    // Simulate a deps file with:
    //   - "-lsqlite3" (link sqlite3)
    //   - "libmbgl-core.a" (a static library with no parent directory)
    //   - "-framework AppKit"
    //   - "some_arg" (an extra linker argument)
    let deps_content = "-lsqlite3 libmbgl-core.a -framework AppKit some_arg";
    let base_dir = "/build_dir/build";
    let instructions = parse_deps(deps_content, base_dir, true);
    let expected = [
        "cargo:rustc-link-lib=sqlite3",
        "cargo:rustc-link-search=native=/build_dir/build",
        "cargo:rustc-link-lib=static=mbgl-core",
        "cargo:rustc-link-lib=framework=AppKit",
        "cargo:rustc-link-arg=some_arg",
    ];
    assert_eq!(instructions, expected);
}

#[test]
fn long_parse() {
    let v = "-ffunction-sections -fdata-sections -fPIC -m64   libmbgl-core.a  libmbgl-vendor-parsedate.a  libmbgl-vendor-csscolorparser.a  vendor/glslang/glslang/libglslang.a  vendor/glslang/SPIRV/libSPIRV.a  vendor/glslang/glslang/libMachineIndependent.a  vendor/glslang/glslang/OSDependent/Unix/libOSDependent.a  vendor/glslang/glslang/libGenericCodeGen.a  vendor/glslang/glslang/libglslang-default-resource-limits.a  /usr/lib/x86_64-linux-gnu/libcurl.so  /usr/lib/x86_64-linux-gnu/libjpeg.so  -luv  -lpthread  -lrt  /usr/lib/x86_64-linux-gnu/libX11.so  /usr/lib/x86_64-linux-gnu/libXext.so  -lwebp  /usr/lib/x86_64-linux-gnu/libicui18n.so  /usr/lib/x86_64-linux-gnu/libicuuc.so  -ldl  /usr/lib/x86_64-linux-gnu/libpng.so  /usr/lib/x86_64-linux-gnu/libz.so  libmbgl-vendor-nunicode.a  libmbgl-vendor-sqlite.a  -lgcc  -lgcc_s  -lc  -lgcc  -lgcc_s  -lstdc++  -lm  -lgcc_s  -lgcc  -lc  -lgcc_s  -lgcc";
    let base_dir = "/build_dir/build";
    let instructions = parse_deps(v, base_dir, true);
    let expected = [
        "cargo:rustc-link-arg=-ffunction-sections",
        "cargo:rustc-link-arg=-fdata-sections",
        "cargo:rustc-link-arg=-fPIC",
        "cargo:rustc-link-arg=-m64",
        "cargo:rustc-link-search=native=/build_dir/build",
        "cargo:rustc-link-lib=static=mbgl-core",
        "cargo:rustc-link-lib=static=mbgl-vendor-parsedate",
        "cargo:rustc-link-lib=static=mbgl-vendor-csscolorparser",
        "cargo:rustc-link-search=native=/build_dir/build/vendor/glslang/glslang",
        "cargo:rustc-link-lib=static=glslang",
        "cargo:rustc-link-search=native=/build_dir/build/vendor/glslang/SPIRV",
        "cargo:rustc-link-lib=static=SPIRV",
        "cargo:rustc-link-lib=static=MachineIndependent",
        "cargo:rustc-link-search=native=/build_dir/build/vendor/glslang/glslang/OSDependent/Unix",
        "cargo:rustc-link-lib=static=OSDependent",
        "cargo:rustc-link-lib=static=GenericCodeGen",
        "cargo:rustc-link-lib=static=glslang-default-resource-limits",
        "cargo:rustc-link-arg=/usr/lib/x86_64-linux-gnu/libcurl.so",
        "cargo:rustc-link-arg=/usr/lib/x86_64-linux-gnu/libjpeg.so",
        "cargo:rustc-link-lib=uv",
        "cargo:rustc-link-lib=pthread",
        "cargo:rustc-link-lib=rt",
        "cargo:rustc-link-arg=/usr/lib/x86_64-linux-gnu/libX11.so",
        "cargo:rustc-link-arg=/usr/lib/x86_64-linux-gnu/libXext.so",
        "cargo:rustc-link-lib=webp",
        "cargo:rustc-link-arg=/usr/lib/x86_64-linux-gnu/libicui18n.so",
        "cargo:rustc-link-arg=/usr/lib/x86_64-linux-gnu/libicuuc.so",
        "cargo:rustc-link-lib=dl",
        "cargo:rustc-link-arg=/usr/lib/x86_64-linux-gnu/libpng.so",
        "cargo:rustc-link-arg=/usr/lib/x86_64-linux-gnu/libz.so",
        "cargo:rustc-link-lib=static=mbgl-vendor-nunicode",
        "cargo:rustc-link-lib=static=mbgl-vendor-sqlite",
        "cargo:rustc-link-lib=gcc",
        "cargo:rustc-link-lib=gcc_s",
        "cargo:rustc-link-lib=c",
        "cargo:rustc-link-lib=gcc",
        "cargo:rustc-link-lib=gcc_s",
        "cargo:rustc-link-lib=stdc++",
        "cargo:rustc-link-lib=m",
        "cargo:rustc-link-lib=gcc_s",
        "cargo:rustc-link-lib=gcc",
        "cargo:rustc-link-lib=c",
        "cargo:rustc-link-lib=gcc_s",
        "cargo:rustc-link-lib=gcc",
    ];

    assert_eq!(instructions, expected);
}

#[test]
fn ignored_tokens_are_reported_without_args() {
    let instructions = parse_deps("-lz odd_token libfoo.A", "/b", false);
    assert_eq!(
        instructions,
        [
            "cargo:rustc-link-lib=z",
            "cargo::warning=Ignoring cmake token = odd_token",
            "cargo:rustc-link-search=native=/b",
            "cargo:rustc-link-lib=static=foo",
        ]
    );
}

#[test]
fn search_dir_announced_once_per_directory() {
    let instructions = parse_deps("x/liba.a x/libb.a y/c.a", "/base", true);
    assert_eq!(
        instructions,
        [
            "cargo:rustc-link-search=native=/base/x",
            "cargo:rustc-link-lib=static=a",
            "cargo:rustc-link-lib=static=b",
            "cargo:rustc-link-search=native=/base/y",
            "cargo:rustc-link-lib=static=c",
        ]
    );
}

#[test]
fn empty_deps_give_no_instructions() {
    assert!(parse_deps("  \n\t ", "/b", true).is_empty());
}

#[test]
fn dangling_framework_is_refused() {
    assert_eq!(try_parse_deps("-lz -framework", "/b", true), None);
    assert_eq!(
        try_parse_deps("-framework Cocoa", "/b", true),
        Some(vec!["cargo:rustc-link-lib=framework=Cocoa".to_string()])
    );
}
