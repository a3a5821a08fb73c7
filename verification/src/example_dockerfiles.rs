//! Dockerfiles that are generated for the example networks.

use vstd::prelude::*;

verus! {

/// The image that the containers of the entrypoint example are built from
pub fn base_container() -> (r: &'static str)
    ensures
        r@ == "alpine:3.20"@,
{
    "alpine:3.20"
}

/// A dynamically generated dockerfile, which adds a file and sets an environment
/// variable that the entrypoint reads
pub fn container2_dockerfile() -> (r: String)
    ensures
        r@ == "\nFROM "@ + "alpine:3.20"@
            + "\n\n# note: when adding from a local file, the file must be located under the same\n# directory as the temporary dockerfile, which is why \".../dockerfile_resources\"\n# is under the `dockerfile_write_dir`\nADD ./dockerfile_resources/example.txt /resources/example.txt\n\n# this is read by Clap\nENV ARG_FROM_ENV=\"environment var from dockerfile\"\n"@,
{
    let mut r: String = "\nFROM ".to_owned();
    r.append(base_container());
    r.append(
        "\n\n# note: when adding from a local file, the file must be located under the same\n# directory as the temporary dockerfile, which is why \".../dockerfile_resources\"\n# is under the `dockerfile_write_dir`\nADD ./dockerfile_resources/example.txt /resources/example.txt\n\n# this is read by Clap\nENV ARG_FROM_ENV=\"environment var from dockerfile\"\n",
    );
    r
}

/// The dockerfile of the container that tests a database, with the dynamic part at
/// its end, in order to maximize the amount that Docker can cache
pub fn test_dockerfile() -> (r: String)
    ensures
        r@
            == "FROM fedora:38\n\n# dependencies for `psql`\nRUN dnf install -y postgresql libpq-devel\n\n# After predetermined setups are when dynamic things should be placed,\n# in order to maximize the amount that Docker can cache.\n\nENV SOMETHING=\"example/"@
            + "something"@ + "\"\n"@,
{
    let dynamic: &str = "something";
    let mut r: String =
        "FROM fedora:38\n\n# dependencies for `psql`\nRUN dnf install -y postgresql libpq-devel\n\n# After predetermined setups are when dynamic things should be placed,\n# in order to maximize the amount that Docker can cache.\n\nENV SOMETHING=\"example/".to_owned();
    r.append(dynamic);
    r.append("\"\n");
    r
}

} // verus!
