//! Review rules: what to check, where it applies, and how it gates the run.

use vstd::prelude::*;

verus! {

/// The mathematical value of a rule: every field as a plain sequence.
#[verifier::ext_equal]
pub struct RuleSpec {
    pub name: Seq<char>,
    pub description: Seq<char>,
    pub instruction: Seq<char>,
    pub scope: Seq<Seq<char>>,
    pub exclude: Seq<Seq<char>>,
    pub max_files_per_task: Option<usize>,
    pub resources: Seq<Seq<char>>,
    pub blocking: bool,
    pub tip: Option<Seq<char>>,
}

/// One review rule: a name, the instruction handed to the model, the glob
/// scope it applies to, and its run policy.
pub struct RuleBody {
    /// Human-readable rule name, invisible to the model.
    pub name: String,
    /// Human-readable description, invisible to the model.
    pub description: String,
    /// Detailed instructions for the model on how to check this rule.
    pub instruction: String,
    /// Glob patterns matching the files this rule applies to.
    pub scope: Vec<String>,
    /// Glob patterns excluded from the matched scope.
    pub exclude: Vec<String>,
    /// Per-rule cap on files per task; the global default applies when absent.
    pub max_files_per_task: Option<usize>,
    /// Rule-specific resources included in the review context.
    pub resources: Vec<String>,
    /// Whether violations of this rule make the run exit non-zero.
    pub blocking: bool,
    /// Tip for downstream processors on how to fix violations.
    pub tip: Option<String>,
}

impl View for RuleBody {
    type V = RuleSpec;

    open spec fn view(&self) -> RuleSpec {
        RuleSpec {
            name: self.name@,
            description: self.description@,
            instruction: self.instruction@,
            scope: self.scope.deep_view(),
            exclude: self.exclude.deep_view(),
            max_files_per_task: self.max_files_per_task,
            resources: self.resources.deep_view(),
            blocking: self.blocking,
            tip: self.tip.deep_view(),
        }
    }
}

/// The scope a rule gets when none is written: every file.
pub fn default_scope() -> (r: Vec<String>)
    ensures
        r.deep_view() =~= seq!["**/*"@],
{
    let mut v: Vec<String> = Vec::new();
    v.push(String::from_str("**/*"));
    v
}

/// Rules block the run unless they opt out.
pub fn default_blocking() -> (r: bool)
    ensures
        r == true,
{
    true
}

/// Globs of configuration and documentation files, excluded from rules
/// that only concern code.
pub fn default_non_code_exclude() -> (r: Vec<String>)
    ensures
        r.deep_view() =~= seq![
            "**/*.md"@,
            "**/*.toml"@,
            "**/*.json"@,
            "**/*.yaml"@,
            "**/*.yml"@,
            "**/*.xml"@,
            "**/*.ini"@,
            "**/*.cfg"@,
            "**/*.conf"@,
            "**/*.lock"@,
            "**/*ignore"@,
        ],
{
    let mut v: Vec<String> = Vec::new();
    v.push(String::from_str("**/*.md"));
    v.push(String::from_str("**/*.toml"));
    v.push(String::from_str("**/*.json"));
    v.push(String::from_str("**/*.yaml"));
    v.push(String::from_str("**/*.yml"));
    v.push(String::from_str("**/*.xml"));
    v.push(String::from_str("**/*.ini"));
    v.push(String::from_str("**/*.cfg"));
    v.push(String::from_str("**/*.conf"));
    v.push(String::from_str("**/*.lock"));
    v.push(String::from_str("**/*ignore"));
    v
}

/// Globs of lock and ignore files, excluded from credential scans.
pub fn default_lock_and_ignore_exclude() -> (r: Vec<String>)
    ensures
        r.deep_view() =~= seq!["*.lock"@, "*lock.json"@, "*ignore"@],
{
    let mut v: Vec<String> = Vec::new();
    v.push(String::from_str("*.lock"));
    v.push(String::from_str("*lock.json"));
    v.push(String::from_str("*ignore"));
    v
}

impl RuleBody {
    /// The built-in rule that keeps the config file documented.
    pub fn config_file_comments() -> (r: RuleBody)
        ensures
            r@.name == "Firekeeper Config Comments"@,
            r@.description == "Ensure firekeeper.toml has correct documentation comments"@,
            r@.scope =~= seq!["firekeeper.toml"@],
            r@.exclude =~= Seq::<Seq<char>>::empty(),
            r@.max_files_per_task == Some(1usize),
            r@.resources =~= seq!["file://firekeeper.toml"@],
            r@.blocking == true,
            r@.tip == Some("Use `firekeeper config format [--config firekeeper.toml]` to re-render the config file\n"@),
            r@.instruction == "Check if firekeeper.toml has missing documentation comments.\n\nSteps:\n1. Check if all fields have documentation comments\n2. Report violations if any field is missing a comment\n\nViolation criteria - Report if:\n- Any field lacks a documentation comment\n"@,
    {
        let mut scope: Vec<String> = Vec::new();
        scope.push(String::from_str("firekeeper.toml"));
        let mut resources: Vec<String> = Vec::new();
        resources.push(String::from_str("file://firekeeper.toml"));
        RuleBody {
            name: String::from_str("Firekeeper Config Comments"),
            description: String::from_str(
                "Ensure firekeeper.toml has correct documentation comments",
            ),
            instruction: String::from_str(
                "Check if firekeeper.toml has missing documentation comments.\n\nSteps:\n1. Check if all fields have documentation comments\n2. Report violations if any field is missing a comment\n\nViolation criteria - Report if:\n- Any field lacks a documentation comment\n",
            ),
            scope,
            exclude: Vec::new(),
            max_files_per_task: Some(1),
            resources,
            blocking: true,
            tip: Some(
                String::from_str(
                    "Use `firekeeper config format [--config firekeeper.toml]` to re-render the config file\n",
                ),
            ),
        }
    }

    /// The built-in rule against unexplained numeric literals.
    pub fn no_magic_numbers() -> (r: RuleBody)
        ensures
            r@.name == "No Magic Numbers"@,
            r@.description == "Prevent hardcoded numeric literals"@,
            r@.scope =~= seq!["**/*"@],
            r@.max_files_per_task == Some(10usize),
            r@.resources =~= Seq::<Seq<char>>::empty(),
            r@.blocking == true,
            r@.tip == Some("Define constants with descriptive names or add explanatory comments.\n"@),
            r@.instruction == "Check for unexplained numeric literals in the provided diff.\n\nSteps:\n1. Identify numeric literals in the diff\n2. Check if numbers have explanatory comments or clear context\n3. Report violations for unexplained numbers\n\nViolation criteria - Report if:\n- Business logic constants without explanation (thresholds, multipliers, limits)\n- Arbitrary timeouts or delays without context\n- Numeric configuration values hardcoded in logic without comments\n- Calculation constants without explanation\n\nExemptions - Do NOT report:\n- 0, 1, -1 in common contexts (indexing, loops, exit codes, boolean-like)\n- Numbers in test files\n- Numbers in configuration files\n- Numbers with nearby comments (within 3 lines above or inline)\n- Numbers in default value functions with descriptive context\n- HTTP status codes (200, 404, etc.)\n- Common time values with clear context (60 for seconds, 24 for hours, 1000 for ms)\n- Array/collection sizes in obvious contexts\n"@,
            r@.exclude =~= seq![
                "**/*.md"@,
                "**/*.toml"@,
                "**/*.json"@,
                "**/*.yaml"@,
                "**/*.yml"@,
                "**/*.xml"@,
                "**/*.ini"@,
                "**/*.cfg"@,
                "**/*.conf"@,
                "**/*.lock"@,
                "**/*ignore"@,
            ],
    {
        RuleBody {
            name: String::from_str("No Magic Numbers"),
            description: String::from_str("Prevent hardcoded numeric literals"),
            instruction: String::from_str(
                "Check for unexplained numeric literals in the provided diff.\n\nSteps:\n1. Identify numeric literals in the diff\n2. Check if numbers have explanatory comments or clear context\n3. Report violations for unexplained numbers\n\nViolation criteria - Report if:\n- Business logic constants without explanation (thresholds, multipliers, limits)\n- Arbitrary timeouts or delays without context\n- Numeric configuration values hardcoded in logic without comments\n- Calculation constants without explanation\n\nExemptions - Do NOT report:\n- 0, 1, -1 in common contexts (indexing, loops, exit codes, boolean-like)\n- Numbers in test files\n- Numbers in configuration files\n- Numbers with nearby comments (within 3 lines above or inline)\n- Numbers in default value functions with descriptive context\n- HTTP status codes (200, 404, etc.)\n- Common time values with clear context (60 for seconds, 24 for hours, 1000 for ms)\n- Array/collection sizes in obvious contexts\n",
            ),
            scope: default_scope(),
            exclude: default_non_code_exclude(),
            max_files_per_task: Some(10),
            resources: Vec::new(),
            blocking: true,
            tip: Some(
                String::from_str(
                    "Define constants with descriptive names or add explanatory comments.\n",
                ),
            ),
        }
    }

    /// The built-in rule against committed credentials.
    pub fn no_hardcoded_credentials() -> (r: RuleBody)
        ensures
            r@.name == "No Hardcoded Credentials"@,
            r@.description == "Prevent credential leaks"@,
            r@.scope =~= seq!["**/*"@],
            r@.exclude =~= seq!["*.lock"@, "*lock.json"@, "*ignore"@],
            r@.max_files_per_task == Some(10usize),
            r@.resources =~= Seq::<Seq<char>>::empty(),
            r@.blocking == true,
            r@.tip == Some("Use environment variables or configuration files for credentials.\nReplace real values with placeholders in examples.\n"@),
            r@.instruction == "Check for hardcoded credentials in the provided diff.\n\nSteps:\n1. Scan the diff for credential-like strings\n2. Determine if they are real credentials or placeholders\n3. Report violations for any real credentials found\n\nViolation criteria - Report if ANY found:\n- API keys, tokens, secrets (e.g., \"sk-...\", \"Bearer ...\", actual secret values)\n- Passwords or password hashes\n- Private keys or certificates\n- OAuth client secrets\n- Database connection strings with credentials\n\nExemptions - Do NOT report:\n- Placeholder/example values (e.g., \"your-api-key\", \"sk-xxxxxx\", \"<API_KEY>\")\n- Environment variable names (e.g., \"API_KEY\", \"DATABASE_URL\")\n- Public URLs and endpoints\n- Email addresses and contact information\n- Test/mock credentials in test files clearly marked as fake\n- Documentation examples with obvious placeholders\n"@,
    {
        RuleBody {
            name: String::from_str("No Hardcoded Credentials"),
            description: String::from_str("Prevent credential leaks"),
            instruction: String::from_str(
                "Check for hardcoded credentials in the provided diff.\n\nSteps:\n1. Scan the diff for credential-like strings\n2. Determine if they are real credentials or placeholders\n3. Report violations for any real credentials found\n\nViolation criteria - Report if ANY found:\n- API keys, tokens, secrets (e.g., \"sk-...\", \"Bearer ...\", actual secret values)\n- Passwords or password hashes\n- Private keys or certificates\n- OAuth client secrets\n- Database connection strings with credentials\n\nExemptions - Do NOT report:\n- Placeholder/example values (e.g., \"your-api-key\", \"sk-xxxxxx\", \"<API_KEY>\")\n- Environment variable names (e.g., \"API_KEY\", \"DATABASE_URL\")\n- Public URLs and endpoints\n- Email addresses and contact information\n- Test/mock credentials in test files clearly marked as fake\n- Documentation examples with obvious placeholders\n",
            ),
            scope: default_scope(),
            exclude: default_lock_and_ignore_exclude(),
            max_files_per_task: Some(10),
            resources: Vec::new(),
            blocking: true,
            tip: Some(
                String::from_str(
                    "Use environment variables or configuration files for credentials.\nReplace real values with placeholders in examples.\n",
                ),
            ),
        }
    }

    /// The built-in rule against duplicated logic across files.
    pub fn no_code_duplication() -> (r: RuleBody)
        ensures
            r@.name == "No Code Duplication"@,
            r@.description == "Prevent duplicate code across files"@,
            r@.scope =~= seq!["**/*"@],
            r@.max_files_per_task == Some(3usize),
            r@.resources =~= seq!["sh://git ls-files"@],
            r@.blocking == true,
            r@.tip == Some("Extract common code into shared functions or modules.\n"@),
            r@.instruction == "Check if modified code duplicates existing code in other files.\n\nSteps:\n1. Read focused files to understand the modified logic\n2. Search for similar code patterns in other files\n3. Report violations if substantial duplication is found\n\nViolation criteria - Report if:\n- Business logic duplicated across files (>30 lines of similar code)\n- Complex algorithms or calculations repeated identically\n- Data transformation logic that's the same in multiple places\n- Functions that could be extracted into shared utilities\n\nExemptions - Do NOT report:\n- Trivial code (one-liners, common patterns like error handling)\n- Test code and test utilities\n- Similar but contextually different logic (e.g., different validation rules)\n- Common patterns (builder methods, getters/setters)\n- Standard boilerplate (CLI parsing, config loading)\n- Factory methods or templates with intentional configuration duplication\n"@,
            r@.exclude =~= seq![
                "**/*.md"@,
                "**/*.toml"@,
                "**/*.json"@,
                "**/*.yaml"@,
                "**/*.yml"@,
                "**/*.xml"@,
                "**/*.ini"@,
                "**/*.cfg"@,
                "**/*.conf"@,
                "**/*.lock"@,
                "**/*ignore"@,
            ],
    {
        let mut resources: Vec<String> = Vec::new();
        resources.push(String::from_str("sh://git ls-files"));
        RuleBody {
            name: String::from_str("No Code Duplication"),
            description: String::from_str("Prevent duplicate code across files"),
            instruction: String::from_str(
                "Check if modified code duplicates existing code in other files.\n\nSteps:\n1. Read focused files to understand the modified logic\n2. Search for similar code patterns in other files\n3. Report violations if substantial duplication is found\n\nViolation criteria - Report if:\n- Business logic duplicated across files (>30 lines of similar code)\n- Complex algorithms or calculations repeated identically\n- Data transformation logic that's the same in multiple places\n- Functions that could be extracted into shared utilities\n\nExemptions - Do NOT report:\n- Trivial code (one-liners, common patterns like error handling)\n- Test code and test utilities\n- Similar but contextually different logic (e.g., different validation rules)\n- Common patterns (builder methods, getters/setters)\n- Standard boilerplate (CLI parsing, config loading)\n- Factory methods or templates with intentional configuration duplication\n",
            ),
            scope: default_scope(),
            exclude: default_non_code_exclude(),
            max_files_per_task: Some(3),
            resources,
            blocking: true,
            tip: Some(
                String::from_str("Extract common code into shared functions or modules.\n"),
            ),
        }
    }
}

} // verus!
