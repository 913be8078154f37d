use vstd::prelude::*;

verus! {

/// Where the debug server's Java archive lies below the CCS root.
pub const DSS_JAR_PATH: &'static str = "ccs_base/DebugServer/packages/ti/dss/java/dss.jar";

/// What `path_clean` makes of a path: lexically normalised, never empty.
pub uninterp spec fn cleaned_path(path: Seq<char>) -> Seq<char>;

/// Calls `path_clean::clean`, which normalises a path lexically (repeated
/// slashes, `.` and `..` elements) and returns `"."` for an empty result.
/// Trusted to return `cleaned_path` of its argument, and a nonempty string.
#[verifier::external_body]
fn clean_path(path: &str) -> (res: String)
    ensures
        res@ == cleaned_path(path@),
        res@.len() > 0,
{
    path_clean::clean(path)
}

/// The options that the Java VM hosting the debug server is started with,
/// for the class path `classpath`.
pub open spec fn jvm_option_list(classpath: Seq<char>) -> Seq<Seq<char>> {
    seq!["-Djava.class.path="@ + classpath, "-Dfile.encoding=UTF8"@, "-Xms40m"@, "-Xmx384m"@]
}

/// The class path reaches the VM whole: the first option is the class path
/// property's prefix followed by every character of the class path, in
/// order, and three fixed options follow it.
pub proof fn lemma_classpath_option_keeps_path(classpath: Seq<char>)
    ensures
        jvm_option_list(classpath).len() == 4,
        jvm_option_list(classpath)[0].len() == 18 + classpath.len(),
        jvm_option_list(classpath)[0].subrange(0, 18) == "-Djava.class.path="@,
        jvm_option_list(classpath)[0].subrange(18, 18 + classpath.len() as int) == classpath,
        forall|i: int| 0 <= i < classpath.len() ==> jvm_option_list(classpath)[0][18 + i] == classpath[i],
{
    reveal_strlit("-Djava.class.path=");
    let first = jvm_option_list(classpath)[0];
    assert(first == "-Djava.class.path="@ + classpath);
    assert(first.subrange(0, 18) =~= "-Djava.class.path="@);
    assert(first.subrange(18, 18 + classpath.len() as int) =~= classpath);
}

/// The views of a list of strings.
pub open spec fn string_views(v: Seq<String>) -> Seq<Seq<char>> {
    v.map_values(|s: String| s@)
}

/// The Java VM options for an already cleaned class path.
pub fn jvm_options(classpath: &str) -> (res: Vec<String>)
    ensures
        string_views(res@) == jvm_option_list(classpath@),
{
    let mut first = "-Djava.class.path=".to_owned();
    first.append(classpath);
    let mut res: Vec<String> = Vec::new();
    res.push(first);
    res.push("-Dfile.encoding=UTF8".to_owned());
    res.push("-Xms40m".to_owned());
    res.push("-Xmx384m".to_owned());
    assert(string_views(res@) =~= jvm_option_list(classpath@));
    res
}

/// The Java VM options for the debug server's archive at `dss_jar`, whose
/// path is cleaned first.
pub fn dss_jvm_options(dss_jar: &str) -> (res: Vec<String>)
    ensures
        string_views(res@) == jvm_option_list(cleaned_path(dss_jar@)),
{
    let classpath = clean_path(dss_jar);
    jvm_options(classpath.as_str())
}

/// The text of a Java exception: its message, or a placeholder when the
/// exception carries none that can be read.
pub open spec fn java_exception_text(message: Option<Seq<char>>) -> Seq<char> {
    match message {
        Some(m) => m,
        None => "Java exception was thrown"@,
    }
}

/// The message of an error raised by a Java exception, from the message that
/// could be read from the exception, if any.
pub fn java_exception_message(message: Option<String>) -> (res: String)
    ensures
        res@ == java_exception_text(
            match message {
                Some(m) => Some(m@),
                None => None,
            },
        ),
{
    match message {
        Some(m) => m,
        None => "Java exception was thrown".to_owned(),
    }
}

} // verus!
